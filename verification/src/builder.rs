//! The statement builder: a structured descriptor becomes a parameterized
//! statement, as text plus an ordered bind list.
//!
//! Identifiers are validated against the allow-list and interposed with
//! quoting; values are always bound through numbered parameter slots, never
//! interpolated. Construction errors are returned before any statement text
//! exists.

use vstd::prelude::*;

use crate::codec::{encode, spec_encodable, spec_encoded};
use crate::errors::BuildError;
use crate::ident::{is_valid_identifier, quoted_ident, validate_identifier};
use crate::predicate::{
    placeholder, placeholder_list, pred_bind_count, pred_binds, pred_check, pred_text,
    push_placeholder, push_quoted, render_predicate, values_check, Predicate,
};
use crate::strutil::str_eq;
use crate::value::{spec_keys, Document, NativeValue, Value};

verus! {

/// The engine caps the number of parameter slots one statement may carry.
pub const MAX_BIND_SLOTS: usize = 65535;

/// Sort direction for an `order by` clause.
#[derive(Debug, Clone, Copy, PartialEq, Eq, Structural)]
pub enum OrderDir {
    Asc,
    Desc,
}

/// A collection-agnostic query descriptor. An absent `columns` (or an empty
/// list) means all columns; every other absent field omits its clause.
#[derive(Debug)]
pub struct DBQuery {
    pub table: String,
    pub columns: Option<Vec<String>>,
    pub predicate: Option<Predicate>,
    pub order_by: Option<String>,
    pub order: Option<OrderDir>,
    pub limit: Option<u32>,
    pub offset: Option<u32>,
}

/// An update: ordered column assignments, and an optional predicate. A
/// missing predicate is an explicit caller choice and updates every row.
#[derive(Debug)]
pub struct UpdateSpec {
    pub table: String,
    pub assignments: Document,
    pub predicate: Option<Predicate>,
}

/// A built statement: the text, and the values for its parameter slots in
/// slot order.
#[derive(Debug)]
pub struct Statement {
    pub text: String,
    pub binds: Vec<NativeValue>,
}

/// The first invalid identifier in a list, if any.
pub open spec fn idents_check(cs: Seq<String>) -> Option<BuildError>
    decreases cs.len(),
{
    if cs.len() == 0 {
        None
    } else if !is_valid_identifier(cs[0]@) {
        Some(BuildError::InvalidIdentifier(cs[0]))
    } else {
        idents_check(cs.drop_first())
    }
}

/// A comma-separated list of quoted identifiers.
pub open spec fn joined_quoted(names: Seq<Seq<char>>) -> Seq<char>
    decreases names.len(),
{
    if names.len() == 0 {
        Seq::empty()
    } else if names.len() == 1 {
        quoted_ident(names[0])
    } else {
        joined_quoted(names.drop_last()) + ", "@ + quoted_ident(names.last())
    }
}

/// The first of two possible construction errors.
pub open spec fn or_else(a: Option<BuildError>, b: Option<BuildError>) -> Option<BuildError> {
    if a is Some {
        a
    } else {
        b
    }
}

/// The bind list an optional predicate contributes.
pub open spec fn opt_pred_binds(p: Option<Predicate>) -> Seq<NativeValue> {
    match p {
        None => Seq::empty(),
        Some(p) => pred_binds(p),
    }
}

/// The check an optional predicate contributes.
pub open spec fn opt_pred_check(p: Option<Predicate>) -> Option<BuildError> {
    match p {
        None => None,
        Some(p) => pred_check(p),
    }
}

/// The `where` clause an optional predicate contributes, first slot `start`.
pub open spec fn where_text(p: Option<Predicate>, start: nat) -> Seq<char> {
    match p {
        None => Seq::empty(),
        Some(p) => " where "@ + pred_text(p, start),
    }
}

/// The selected column list: `*` when no columns are named.
pub open spec fn projection_text(columns: Option<Vec<String>>) -> Seq<char> {
    match columns {
        None => "*"@,
        Some(cs) => if cs@.len() == 0 {
            "*"@
        } else {
            joined_quoted(cs@.map_values(|c: String| c@))
        },
    }
}

/// The `order by` clause; direction defaults to ascending.
pub open spec fn order_text(order_by: Option<String>, dir: Option<OrderDir>) -> Seq<char> {
    match order_by {
        None => Seq::empty(),
        Some(c) => " order by "@ + quoted_ident(c@) + (match dir {
            Some(OrderDir::Desc) => " desc"@,
            _ => " asc"@,
        }),
    }
}

/// The first construction error of a select, in clause order.
pub open spec fn select_check(q: DBQuery) -> Option<BuildError> {
    if !is_valid_identifier(q.table@) {
        Some(BuildError::InvalidIdentifier(q.table))
    } else {
        or_else(
            match q.columns {
                None => None,
                Some(cs) => idents_check(cs@),
            },
            or_else(
                match q.order_by {
                    None => None,
                    Some(ob) => if !is_valid_identifier(ob@) {
                        Some(BuildError::InvalidIdentifier(ob))
                    } else {
                        None
                    },
                },
                opt_pred_check(q.predicate),
            ),
        )
    }
}

/// How many parameter slots the predicate of a select takes.
pub open spec fn select_pred_count(q: DBQuery) -> nat {
    opt_pred_binds(q.predicate).len()
}

/// The full text of a select: projection, `from`, then each optional clause
/// in fixed order, omitted entirely when absent.
pub open spec fn select_text(q: DBQuery) -> Seq<char> {
    "select "@ + projection_text(q.columns) + " from "@ + quoted_ident(q.table@) + where_text(
        q.predicate,
        1,
    ) + order_text(q.order_by, q.order) + (match q.limit {
        None => Seq::<char>::empty(),
        Some(_) => " limit "@ + placeholder(1 + select_pred_count(q)),
    }) + (match q.offset {
        None => Seq::<char>::empty(),
        Some(_) => " offset "@ + placeholder(
            1 + select_pred_count(q) + (if q.limit is Some {
                1nat
            } else {
                0nat
            }),
        ),
    })
}

/// The ordered bind list of a select: predicate binds, then limit, then
/// offset.
pub open spec fn select_binds(q: DBQuery) -> Seq<NativeValue> {
    opt_pred_binds(q.predicate) + (match q.limit {
        None => Seq::<NativeValue>::empty(),
        Some(l) => seq![NativeValue::Int(l as i64)],
    }) + (match q.offset {
        None => Seq::<NativeValue>::empty(),
        Some(o) => seq![NativeValue::Int(o as i64)],
    })
}

/// Adding a limit to a descriptor appends exactly one clause to the text
/// and exactly one bound value, the limit itself; nothing else changes.
pub proof fn lemma_limit_appends_one_clause(q: DBQuery, l: u32)
    requires
        q.limit is None,
        q.offset is None,
    ensures
        ({
            let q2 = DBQuery { limit: Some(l), ..q };
            &&& select_text(q2) == select_text(q) + " limit "@ + placeholder(
                1 + select_pred_count(q),
            )
            &&& select_binds(q2) == select_binds(q) + seq![NativeValue::Int(l as i64)]
            &&& select_check(q2) == select_check(q)
        }),
{
    let q2 = DBQuery { limit: Some(l), ..q };
    assert(select_text(q2) =~= select_text(q) + " limit "@ + placeholder(
        1 + select_pred_count(q),
    ));
    assert(select_binds(q2) =~= select_binds(q) + seq![NativeValue::Int(l as i64)]);
}

/// A table name holding a double quote or a semicolon can never pass the
/// allow-list, so a select on it fails before any statement text exists.
pub proof fn lemma_injection_in_table_never_built(q: DBQuery)
    requires
        exists|i: int| 0 <= i < q.table@.len() && (q.table@[i] == '"' || q.table@[i] == ';'),
    ensures
        select_check(q) == Some(BuildError::InvalidIdentifier(q.table)),
{
    crate::ident::lemma_quote_or_semicolon_never_valid(q.table@);
}

proof fn lemma_idents_check_clean(cs: Seq<String>)
    requires
        forall|j: int| 0 <= j < cs.len() ==> is_valid_identifier(#[trigger] cs[j]@),
    ensures
        idents_check(cs) is None,
    decreases cs.len(),
{
    if cs.len() > 0 {
        lemma_idents_check_clean(cs.drop_first());
    }
}

proof fn lemma_idents_check_err(cs: Seq<String>, i: int)
    requires
        0 <= i < cs.len(),
        !is_valid_identifier(cs[i]@),
        forall|j: int| 0 <= j < i ==> is_valid_identifier(#[trigger] cs[j]@),
    ensures
        idents_check(cs) == Some(BuildError::InvalidIdentifier(cs[i])),
    decreases i,
{
    if i > 0 {
        lemma_idents_check_err(cs.drop_first(), i - 1);
    }
}

/// Renders a comma-separated list of quoted identifiers into `out`,
/// validating each; the first invalid one is returned instead and `out` is
/// left unchanged.
fn push_joined_idents(out: &mut String, names: &Vec<String>) -> (r: Result<(), BuildError>)
    ensures
        match r {
            Ok(()) => {
                &&& idents_check(names@) is None
                &&& final(out)@ == old(out)@ + joined_quoted(
                    names@.map_values(|c: String| c@),
                )
            },
            Err(e) => {
                &&& idents_check(names@) == Some(e)
                &&& final(out)@ == old(out)@
            },
        },
{
    let n = names.len();
    let mut i: usize = 0;
    while i < n
        invariant
            0 <= i <= n,
            n == names@.len(),
            forall|j: int| 0 <= j < i ==> is_valid_identifier(#[trigger] names@[j]@),
        decreases n - i,
    {
        if !validate_identifier(names[i].as_str()) {
            proof {
                lemma_idents_check_err(names@, i as int);
            }
            return Err(BuildError::InvalidIdentifier(names[i].clone()));
        }
        i += 1;
    }
    proof {
        lemma_idents_check_clean(names@);
    }
    let ghost start = out@;
    let ghost mapped = names@.map_values(|c: String| c@);
    let mut k: usize = 0;
    while k < n
        invariant
            0 <= k <= n,
            n == names@.len(),
            mapped == names@.map_values(|c: String| c@),
            out@ == start + joined_quoted(mapped.subrange(0, k as int)),
        decreases n - k,
    {
        if k > 0 {
            out.append(", ");
        }
        push_quoted(out, names[k].as_str());
        proof {
            assert(mapped.subrange(0, k + 1).drop_last() =~= mapped.subrange(0, k as int));
            assert(out@ =~= start + joined_quoted(mapped.subrange(0, k + 1)));
        }
        k += 1;
    }
    proof {
        assert(mapped.subrange(0, n as int) =~= mapped);
    }
    Ok(())
}

/// Builds a select statement. Construction errors come back before any
/// text exists: an invalid table, column or order-by identifier, or a
/// predicate error, in that order. On success the text follows the fixed
/// clause order and the binds are the predicate's, then limit, then offset.
#[verifier::rlimit(100)]
#[verifier::spinoff_prover]
pub fn build_select(q: &DBQuery) -> (r: Result<Statement, BuildError>)
    requires
        select_binds(*q).len() <= MAX_BIND_SLOTS,
    ensures
        match r {
            Ok(st) => {
                &&& select_check(*q) is None
                &&& st.text@ == select_text(*q)
                &&& st.binds@ == select_binds(*q)
            },
            Err(e) => select_check(*q) == Some(e),
        },
{
    if !validate_identifier(q.table.as_str()) {
        return Err(BuildError::InvalidIdentifier(q.table.clone()));
    }
    let mut proj = String::new();
    match &q.columns {
        None => proj.append("*"),
        Some(cs) => {
            if cs.len() == 0 {
                proj.append("*");
            } else {
                match push_joined_idents(&mut proj, cs) {
                    Ok(()) => {},
                    Err(e) => {
                        return Err(e);
                    },
                }
            }
        },
    }
    match &q.order_by {
        None => {},
        Some(ob) => {
            if !validate_identifier(ob.as_str()) {
                return Err(BuildError::InvalidIdentifier(ob.clone()));
            }
        },
    }
    let (wtext, mut binds): (Option<String>, Vec<NativeValue>) = match &q.predicate {
        None => (None, Vec::new()),
        Some(p) => {
            proof {
                assert(select_binds(*q).len() >= pred_binds(*p).len());
            }
            match render_predicate(p, 1) {
                Ok((t, b)) => (Some(t), b),
                Err(e) => {
                    return Err(e);
                },
            }
        },
    };
    let npred = binds.len();
    proof {
        assert(proj@ == projection_text(q.columns));
        assert(npred == select_pred_count(*q));
    }
    let mut text = String::new();
    text.append("select ");
    text.append(proj.as_str());
    text.append(" from ");
    push_quoted(&mut text, q.table.as_str());
    proof {
        assert(text@ =~= "select "@ + projection_text(q.columns) + " from "@ + quoted_ident(
            q.table@,
        ));
    }
    let ghost head = text@;
    match &wtext {
        None => {},
        Some(w) => {
            text.append(" where ");
            text.append(w.as_str());
        },
    }
    proof {
        assert(text@ =~= head + where_text(q.predicate, 1));
    }
    let ghost head2 = text@;
    match &q.order_by {
        None => {},
        Some(ob) => {
            text.append(" order by ");
            push_quoted(&mut text, ob.as_str());
            match q.order {
                Some(OrderDir::Desc) => text.append(" desc"),
                _ => text.append(" asc"),
            }
        },
    }
    proof {
        assert(text@ =~= head2 + order_text(q.order_by, q.order));
    }
    let ghost head3 = text@;
    let mut next_slot: usize = npred + 1;
    match q.limit {
        None => {},
        Some(l) => {
            text.append(" limit ");
            push_placeholder(&mut text, next_slot as u64);
            binds.push(NativeValue::Int(l as i64));
            next_slot += 1;
        },
    }
    proof {
        assert(text@ =~= head3 + (match q.limit {
            None => Seq::<char>::empty(),
            Some(_) => " limit "@ + placeholder(1 + select_pred_count(*q)),
        }));
    }
    let ghost head4 = text@;
    match q.offset {
        None => {},
        Some(o) => {
            text.append(" offset ");
            push_placeholder(&mut text, next_slot as u64);
            binds.push(NativeValue::Int(o as i64));
        },
    }
    proof {
        assert(text@ =~= head4 + (match q.offset {
            None => Seq::<char>::empty(),
            Some(_) => " offset "@ + placeholder(
                1 + select_pred_count(*q) + (if q.limit is Some {
                    1nat
                } else {
                    0nat
                }),
            ),
        }));
        assert(text@ =~= select_text(*q));
        assert(binds@ =~= select_binds(*q));
    }
    Ok(Statement { text, binds })
}

/// Builds a delete statement: `delete from` the table, with the predicate's
/// clause when one is given. A missing predicate deletes every row and is
/// the caller's explicit choice.
pub fn build_delete(table: &String, predicate: &Option<Predicate>) -> (r: Result<
    Statement,
    BuildError,
>)
    requires
        opt_pred_binds(*predicate).len() <= MAX_BIND_SLOTS,
    ensures
        match r {
            Ok(st) => {
                &&& is_valid_identifier(table@)
                &&& opt_pred_check(*predicate) is None
                &&& st.text@ == "delete from "@ + quoted_ident(table@) + where_text(*predicate, 1)
                &&& st.binds@ == opt_pred_binds(*predicate)
            },
            Err(e) => {
                if !is_valid_identifier(table@) {
                    e == BuildError::InvalidIdentifier(*table)
                } else {
                    opt_pred_check(*predicate) == Some(e)
                }
            },
        },
{
    if !validate_identifier(table.as_str()) {
        return Err(BuildError::InvalidIdentifier(table.clone()));
    }
    let (wtext, binds): (Option<String>, Vec<NativeValue>) = match predicate {
        None => (None, Vec::new()),
        Some(p) => match render_predicate(p, 1) {
            Ok((t, b)) => (Some(t), b),
            Err(e) => {
                return Err(e);
            },
        },
    };
    let mut text = String::new();
    text.append("delete from ");
    push_quoted(&mut text, table.as_str());
    match &wtext {
        None => {},
        Some(w) => {
            text.append(" where ");
            text.append(w.as_str());
        },
    }
    proof {
        assert(text@ =~= "delete from "@ + quoted_ident(table@) + where_text(*predicate, 1));
        assert(binds@ =~= opt_pred_binds(*predicate));
    }
    Ok(Statement { text, binds })
}

/// The key strings of a document's entries, in order.
pub open spec fn doc_key_strings(d: Seq<(String, Value)>) -> Seq<String> {
    d.map_values(|p: (String, Value)| p.0)
}

/// The values of a document's entries, in order.
pub open spec fn doc_value_seq(d: Seq<(String, Value)>) -> Seq<Value> {
    d.map_values(|p: (String, Value)| p.1)
}

/// The bind list one document contributes, entry order.
pub open spec fn doc_binds(d: Seq<(String, Value)>) -> Seq<NativeValue> {
    d.map_values(|p: (String, Value)| spec_encoded(p.1))
}

/// The first unencodable value across a batch, scanning documents in order.
pub open spec fn batch_values_check(batch: Seq<Document>) -> Option<BuildError>
    decreases batch.len(),
{
    if batch.len() == 0 {
        None
    } else {
        or_else(
            values_check(doc_value_seq(batch[0]@)),
            batch_values_check(batch.drop_first()),
        )
    }
}

/// Whether every document in the batch has the first document's ordered
/// key set.
pub open spec fn batch_keys_match(batch: Seq<Document>) -> bool {
    forall|i: int|
        0 <= i < batch.len() ==> spec_keys(#[trigger] batch[i]@) == spec_keys(batch[0]@)
}

/// The first construction error of an insert: an empty batch, an invalid
/// table or column identifier, a key-set mismatch, then an unencodable
/// value, in that order.
pub open spec fn insert_check(table: String, batch: Seq<Document>) -> Option<BuildError> {
    if batch.len() == 0 {
        Some(BuildError::EmptyBatch)
    } else if !is_valid_identifier(table@) {
        Some(BuildError::InvalidIdentifier(table))
    } else {
        or_else(
            idents_check(doc_key_strings(batch[0]@)),
            if !batch_keys_match(batch) {
                Some(BuildError::MismatchedBatchKeys)
            } else {
                batch_values_check(batch)
            },
        )
    }
}

/// One value tuple: `ncols` consecutive slots from `start`, parenthesized.
pub open spec fn tuple_text(start: nat, ncols: nat) -> Seq<char> {
    "("@ + placeholder_list(start, ncols) + ")"@
}

/// `count` value tuples of `ncols` slots each, comma-separated, slots
/// numbered row-major from 1.
pub open spec fn rows_text(count: nat, ncols: nat) -> Seq<char>
    decreases count,
{
    if count == 0 {
        Seq::empty()
    } else if count == 1 {
        tuple_text(1, ncols)
    } else {
        rows_text((count - 1) as nat, ncols) + ", "@ + tuple_text(
            (1 + (count - 1) * ncols) as nat,
            ncols,
        )
    }
}

/// The full text of an insert.
pub open spec fn insert_text(table: String, batch: Seq<Document>) -> Seq<char> {
    "insert into "@ + quoted_ident(table@) + " ("@ + joined_quoted(spec_keys(batch[0]@))
        + ") values "@ + rows_text(batch.len(), batch[0]@.len())
}

/// The ordered bind list of an insert: one tuple per document, in batch
/// order, each document's values in its key order.
pub open spec fn insert_binds(batch: Seq<Document>) -> Seq<NativeValue>
    decreases batch.len(),
{
    if batch.len() == 0 {
        Seq::empty()
    } else {
        insert_binds(batch.drop_last()) + doc_binds(batch.last()@)
    }
}

proof fn lemma_insert_binds_prefix(batch: Seq<Document>, i: int)
    requires
        0 <= i <= batch.len(),
    ensures
        insert_binds(batch.subrange(0, i)).len() <= insert_binds(batch).len(),
    decreases batch.len() - i,
{
    if i == batch.len() {
        assert(batch.subrange(0, i) =~= batch);
    } else {
        lemma_insert_binds_prefix(batch, i + 1);
        assert(batch.subrange(0, i + 1).drop_last() =~= batch.subrange(0, i));
    }
}

proof fn lemma_batch_values_clean(batch: Seq<Document>)
    requires
        forall|j: int|
            0 <= j < batch.len() ==> values_check(doc_value_seq(#[trigger] batch[j]@)) is None,
    ensures
        batch_values_check(batch) is None,
    decreases batch.len(),
{
    if batch.len() > 0 {
        lemma_batch_values_clean(batch.drop_first());
    }
}

proof fn lemma_batch_values_err(batch: Seq<Document>, i: int)
    requires
        0 <= i < batch.len(),
        values_check(doc_value_seq(batch[i]@)) is Some,
        forall|j: int|
            0 <= j < i ==> values_check(doc_value_seq(#[trigger] batch[j]@)) is None,
    ensures
        batch_values_check(batch) == values_check(doc_value_seq(batch[i]@)),
    decreases i,
{
    if i > 0 {
        lemma_batch_values_err(batch.drop_first(), i - 1);
    }
}

/// Encodes every value of one document, appending to `binds`; the entries'
/// values in entry order, or the document's first unencodable value.
fn encode_doc_values(
    doc: &Document,
    binds: &mut Vec<NativeValue>,
    slots: &mut String,
) -> (r: Result<(), BuildError>)
    requires
        old(binds)@.len() + doc@.len() <= MAX_BIND_SLOTS,
    ensures
        match r {
            Ok(()) => {
                &&& values_check(doc_value_seq(doc@)) is None
                &&& final(binds)@ == old(binds)@ + doc_binds(doc@)
                &&& final(slots)@ == old(slots)@ + tuple_text(old(binds)@.len() + 1, doc@.len())
            },
            Err(e) => values_check(doc_value_seq(doc@)) == Some(e),
        },
{
    let n = doc.len();
    let base = binds.len();
    slots.append("(");
    let ghost start = slots@;
    let mut j: usize = 0;
    while j < n
        invariant
            0 <= j <= n,
            n == doc@.len(),
            base == old(binds)@.len(),
            base + n <= MAX_BIND_SLOTS,
            binds@ == old(binds)@ + doc@.subrange(0, j as int).map_values(
                |p: (String, Value)| spec_encoded(p.1),
            ),
            forall|k: int| 0 <= k < j ==> spec_encodable(#[trigger] doc@[k].1),
            j > 0 ==> slots@ == start + placeholder_list((base + 1) as nat, j as nat),
            j == 0 ==> slots@ == start,
        decreases n - j,
    {
        if j > 0 {
            slots.append(", ");
        }
        push_placeholder(slots, (base + j + 1) as u64);
        proof {
            assert(slots@ =~= start + placeholder_list((base + 1) as nat, (j + 1) as nat));
        }
        let entry = doc.entry_at(j);
        match encode(&entry.1) {
            Ok(nv) => {
                binds.push(nv);
                proof {
                    assert(binds@ =~= old(binds)@ + doc@.subrange(0, j + 1).map_values(
                        |p: (String, Value)| spec_encoded(p.1),
                    ));
                }
            },
            Err(e) => {
                proof {
                    lemma_values_check_err_entries(doc@, j as int);
                }
                return Err(e);
            },
        }
        j += 1;
    }
    slots.append(")");
    proof {
        lemma_values_check_clean_entries(doc@);
        assert(doc@.subrange(0, n as int) =~= doc@);
        assert(doc@.subrange(0, n as int).map_values(|p: (String, Value)| spec_encoded(p.1))
            =~= doc_binds(doc@));
        assert(slots@ =~= old(slots)@ + tuple_text(old(binds)@.len() + 1, doc@.len()));
    }
    Ok(())
}

proof fn lemma_values_check_clean_entries(d: Seq<(String, Value)>)
    requires
        forall|k: int| 0 <= k < d.len() ==> spec_encodable(#[trigger] d[k].1),
    ensures
        values_check(doc_value_seq(d)) is None,
    decreases d.len(),
{
    if d.len() > 0 {
        lemma_values_check_clean_entries(d.drop_first());
        assert(doc_value_seq(d).drop_first() =~= doc_value_seq(d.drop_first()));
    }
}

proof fn lemma_values_check_err_entries(d: Seq<(String, Value)>, i: int)
    requires
        0 <= i < d.len(),
        !spec_encodable(d[i].1),
        forall|k: int| 0 <= k < i ==> spec_encodable(#[trigger] d[k].1),
    ensures
        values_check(doc_value_seq(d)) == match d[i].1 {
            Value::Unsupported(t) => Some(BuildError::UnencodableValue(t)),
            _ => None::<BuildError>,
        },
    decreases i,
{
    if i > 0 {
        lemma_values_check_err_entries(d.drop_first(), i - 1);
        assert(doc_value_seq(d).drop_first() =~= doc_value_seq(d.drop_first()));
    } else {
        assert(doc_value_seq(d)[0] == d[0].1);
    }
}

/// Builds an insert statement for a non-empty batch that shares one ordered
/// key set. The column list is that key set in its order; one value tuple
/// per document, in batch order; every value bound, row-major.
#[verifier::rlimit(100)]
pub fn build_insert(table: &String, batch: &Vec<Document>) -> (r: Result<Statement, BuildError>)
    requires
        insert_binds(batch@).len() <= MAX_BIND_SLOTS,
    ensures
        match r {
            Ok(st) => {
                &&& insert_check(*table, batch@) is None
                &&& st.text@ == insert_text(*table, batch@)
                &&& st.binds@ == insert_binds(batch@)
            },
            Err(e) => insert_check(*table, batch@) == Some(e),
        },
{
    let nrows = batch.len();
    if nrows == 0 {
        return Err(BuildError::EmptyBatch);
    }
    if !validate_identifier(table.as_str()) {
        return Err(BuildError::InvalidIdentifier(table.clone()));
    }
    let keys = batch[0].keys();
    let ncols = keys.len();
    proof {
        assert(keys@ =~= doc_key_strings(batch@[0]@));
    }
    let mut collist = String::new();
    match push_joined_idents(&mut collist, &keys) {
        Ok(()) => {},
        Err(e) => {
            return Err(e);
        },
    }
    proof {
        assert(keys@.map_values(|c: String| c@) =~= spec_keys(batch@[0]@));
    }
    // every further document must carry the same ordered key set
    let mut i: usize = 1;
    while i < nrows
        invariant
            1 <= i <= nrows,
            nrows == batch@.len(),
            ncols == batch@[0]@.len(),
            is_valid_identifier(table@),
            idents_check(doc_key_strings(batch@[0]@)) is None,
            forall|ii: int|
                0 <= ii < i ==> spec_keys(#[trigger] batch@[ii]@) == spec_keys(batch@[0]@),
        decreases nrows - i,
    {
        let di = &batch[i];
        if di.len() != ncols {
            proof {
                assert(spec_keys(batch@[i as int]@).len() != spec_keys(batch@[0]@).len());
                assert(!batch_keys_match(batch@));
            }
            return Err(BuildError::MismatchedBatchKeys);
        }
        let mut j: usize = 0;
        while j < ncols
            invariant
                0 <= j <= ncols,
                i < nrows == batch@.len(),
                ncols == batch@[0]@.len(),
                ncols == batch@[i as int]@.len(),
                is_valid_identifier(table@),
                idents_check(doc_key_strings(batch@[0]@)) is None,
                di == &batch@[i as int],
                forall|jj: int|
                    0 <= jj < j ==> spec_keys(batch@[i as int]@)[jj] == spec_keys(
                        batch@[0]@,
                    )[jj],
            decreases ncols - j,
        {
            let e0 = batch[0].entry_at(j);
            let ei = di.entry_at(j);
            if !str_eq(ei.0.as_str(), e0.0.as_str()) {
                proof {
                    assert(spec_keys(batch@[i as int]@)[j as int] != spec_keys(
                        batch@[0]@,
                    )[j as int]);
                    assert(spec_keys(batch@[i as int]@) != spec_keys(batch@[0]@));
                    assert(!batch_keys_match(batch@));
                }
                return Err(BuildError::MismatchedBatchKeys);
            }
            j += 1;
        }
        proof {
            assert(spec_keys(batch@[i as int]@) =~= spec_keys(batch@[0]@));
        }
        i += 1;
    }
    proof {
        assert(batch_keys_match(batch@));
    }
    // encode values and lay the tuples out, row-major
    let mut binds: Vec<NativeValue> = Vec::new();
    let mut vtext = String::new();
    let mut row: usize = 0;
    while row < nrows
        invariant
            0 <= row <= nrows,
            1 <= nrows == batch@.len(),
            ncols == batch@[0]@.len(),
            is_valid_identifier(table@),
            idents_check(doc_key_strings(batch@[0]@)) is None,
            insert_binds(batch@).len() <= MAX_BIND_SLOTS,
            batch_keys_match(batch@),
            binds@ == insert_binds(batch@.subrange(0, row as int)),
            binds@.len() == row * ncols,
            vtext@ == rows_text(row as nat, ncols as nat),
            forall|jj: int|
                0 <= jj < row ==> values_check(
                    doc_value_seq(#[trigger] batch@[jj]@),
                ) is None,
        decreases nrows - row,
    {
        if row > 0 {
            vtext.append(", ");
        }
        let doc = &batch[row];
        proof {
            assert(spec_keys(batch@[row as int]@) == spec_keys(batch@[0]@));
            assert(spec_keys(batch@[row as int]@).len() == batch@[row as int]@.len());
            assert(spec_keys(batch@[0]@).len() == batch@[0]@.len());
            assert(doc@.len() == ncols);
            lemma_insert_binds_prefix(batch@, row + 1);
            assert(batch@.subrange(0, row + 1).drop_last() =~= batch@.subrange(0, row as int));
            assert(insert_binds(batch@.subrange(0, row + 1)) == insert_binds(
                batch@.subrange(0, row as int),
            ) + doc_binds(batch@[row as int]@));
        }
        match encode_doc_values(doc, &mut binds, &mut vtext) {
            Ok(()) => {},
            Err(e) => {
                proof {
                    lemma_batch_values_err(batch@, row as int);
                }
                return Err(e);
            },
        }
        proof {
            assert((row + 1) * ncols == row * ncols + ncols) by (nonlinear_arith);
            if row > 0 {
                assert(vtext@ =~= rows_text((row + 1) as nat, ncols as nat));
            } else {
                assert(vtext@ =~= rows_text(1, ncols as nat));
            }
        }
        row += 1;
    }
    proof {
        lemma_batch_values_clean(batch@);
        assert(batch@.subrange(0, nrows as int) =~= batch@);
    }
    let mut text = String::new();
    text.append("insert into ");
    push_quoted(&mut text, table.as_str());
    text.append(" (");
    text.append(collist.as_str());
    text.append(") values ");
    text.append(vtext.as_str());
    proof {
        assert(text@ =~= insert_text(*table, batch@));
    }
    Ok(Statement { text, binds })
}

/// The `set` list: each column quoted and assigned its slot, slots numbered
/// from 1 in entry order.
pub open spec fn set_list(names: Seq<Seq<char>>) -> Seq<char>
    decreases names.len(),
{
    if names.len() == 0 {
        Seq::empty()
    } else if names.len() == 1 {
        quoted_ident(names[0]) + " = "@ + placeholder(1)
    } else {
        set_list(names.drop_last()) + ", "@ + quoted_ident(names.last()) + " = "@ + placeholder(
            names.len(),
        )
    }
}

/// The first construction error of an update: empty assignments, an invalid
/// table or column identifier, an unencodable value, then a predicate
/// error, in that order.
pub open spec fn update_check(u: UpdateSpec) -> Option<BuildError> {
    if u.assignments@.len() == 0 {
        Some(BuildError::EmptyAssignments)
    } else if !is_valid_identifier(u.table@) {
        Some(BuildError::InvalidIdentifier(u.table))
    } else {
        or_else(
            idents_check(doc_key_strings(u.assignments@)),
            or_else(
                values_check(doc_value_seq(u.assignments@)),
                opt_pred_check(u.predicate),
            ),
        )
    }
}

/// The full text of an update; the predicate's slots follow the
/// assignments'.
pub open spec fn update_text(u: UpdateSpec) -> Seq<char> {
    "update "@ + quoted_ident(u.table@) + " set "@ + set_list(spec_keys(u.assignments@))
        + where_text(u.predicate, u.assignments@.len() + 1)
}

/// The ordered bind list of an update: assignment values, then the
/// predicate's.
pub open spec fn update_binds(u: UpdateSpec) -> Seq<NativeValue> {
    doc_binds(u.assignments@) + opt_pred_binds(u.predicate)
}

/// Builds an update statement: every named column is assigned a bound
/// value; the predicate, when given, scopes the update. A missing predicate
/// updates every row and is the caller's explicit choice.
#[verifier::rlimit(100)]
pub fn build_update(u: &UpdateSpec) -> (r: Result<Statement, BuildError>)
    requires
        update_binds(*u).len() <= MAX_BIND_SLOTS,
    ensures
        match r {
            Ok(st) => {
                &&& update_check(*u) is None
                &&& st.text@ == update_text(*u)
                &&& st.binds@ == update_binds(*u)
            },
            Err(e) => update_check(*u) == Some(e),
        },
{
    let nassign = u.assignments.len();
    if nassign == 0 {
        return Err(BuildError::EmptyAssignments);
    }
    if !validate_identifier(u.table.as_str()) {
        return Err(BuildError::InvalidIdentifier(u.table.clone()));
    }
    let mut settext = String::new();
    let mut j: usize = 0;
    while j < nassign
        invariant
            0 <= j <= nassign,
            1 <= nassign == u.assignments@.len(),
            nassign <= MAX_BIND_SLOTS,
            is_valid_identifier(u.table@),
            forall|k: int| 0 <= k < j ==> is_valid_identifier(#[trigger] u.assignments@[k].0@),
            j > 0 ==> settext@ == set_list(spec_keys(u.assignments@).subrange(0, j as int)),
            j == 0 ==> settext@ == Seq::<char>::empty(),
        decreases nassign - j,
    {
        let entry = u.assignments.entry_at(j);
        if !validate_identifier(entry.0.as_str()) {
            proof {
                lemma_idents_check_err_entries(u.assignments@, j as int);
            }
            return Err(BuildError::InvalidIdentifier(entry.0.clone()));
        }
        if j > 0 {
            settext.append(", ");
        }
        push_quoted(&mut settext, entry.0.as_str());
        settext.append(" = ");
        push_placeholder(&mut settext, (j + 1) as u64);
        proof {
            assert(spec_keys(u.assignments@).subrange(0, j + 1).drop_last() =~= spec_keys(
                u.assignments@,
            ).subrange(0, j as int));
            assert(settext@ =~= set_list(spec_keys(u.assignments@).subrange(0, j + 1)));
        }
        j += 1;
    }
    proof {
        lemma_idents_check_clean_entries(u.assignments@);
        assert(spec_keys(u.assignments@).subrange(0, nassign as int) =~= spec_keys(
            u.assignments@,
        ));
    }
    let mut binds: Vec<NativeValue> = Vec::new();
    let mut k: usize = 0;
    while k < nassign
        invariant
            0 <= k <= nassign,
            1 <= nassign == u.assignments@.len(),
            is_valid_identifier(u.table@),
            idents_check(doc_key_strings(u.assignments@)) is None,
            binds@ == u.assignments@.subrange(0, k as int).map_values(
                |p: (String, Value)| spec_encoded(p.1),
            ),
            forall|m: int| 0 <= m < k ==> spec_encodable(#[trigger] u.assignments@[m].1),
        decreases nassign - k,
    {
        let entry = u.assignments.entry_at(k);
        match encode(&entry.1) {
            Ok(nv) => {
                binds.push(nv);
                proof {
                    assert(binds@ =~= u.assignments@.subrange(0, k + 1).map_values(
                        |p: (String, Value)| spec_encoded(p.1),
                    ));
                }
            },
            Err(e) => {
                proof {
                    lemma_values_check_err_entries(u.assignments@, k as int);
                }
                return Err(e);
            },
        }
        k += 1;
    }
    proof {
        lemma_values_check_clean_entries(u.assignments@);
        assert(u.assignments@.subrange(0, nassign as int) =~= u.assignments@);
        assert(binds@ =~= doc_binds(u.assignments@));
    }
    let (wtext, wbinds): (Option<String>, Option<Vec<NativeValue>>) = match &u.predicate {
        None => (None, None),
        Some(p) => {
            proof {
                assert(update_binds(*u).len() >= pred_binds(*p).len());
            }
            match render_predicate(p, (nassign + 1) as u64) {
                Ok((t, b)) => (Some(t), Some(b)),
                Err(e) => {
                    return Err(e);
                },
            }
        },
    };
    match wbinds {
        None => {},
        Some(mut b) => binds.append(&mut b),
    }
    let mut text = String::new();
    text.append("update ");
    push_quoted(&mut text, u.table.as_str());
    text.append(" set ");
    text.append(settext.as_str());
    match &wtext {
        None => {},
        Some(w) => {
            text.append(" where ");
            text.append(w.as_str());
        },
    }
    proof {
        assert(text@ =~= update_text(*u));
        assert(binds@ =~= update_binds(*u));
    }
    Ok(Statement { text, binds })
}

proof fn lemma_idents_check_clean_entries(d: Seq<(String, Value)>)
    requires
        forall|k: int| 0 <= k < d.len() ==> is_valid_identifier(#[trigger] d[k].0@),
    ensures
        idents_check(doc_key_strings(d)) is None,
    decreases d.len(),
{
    if d.len() > 0 {
        lemma_idents_check_clean_entries(d.drop_first());
        assert(doc_key_strings(d).drop_first() =~= doc_key_strings(d.drop_first()));
    }
}

proof fn lemma_idents_check_err_entries(d: Seq<(String, Value)>, i: int)
    requires
        0 <= i < d.len(),
        !is_valid_identifier(d[i].0@),
        forall|k: int| 0 <= k < i ==> is_valid_identifier(#[trigger] d[k].0@),
    ensures
        idents_check(doc_key_strings(d)) == Some(BuildError::InvalidIdentifier(d[i].0)),
    decreases i,
{
    if i > 0 {
        lemma_idents_check_err_entries(d.drop_first(), i - 1);
        assert(doc_key_strings(d).drop_first() =~= doc_key_strings(d.drop_first()));
    } else {
        assert(doc_key_strings(d)[0] == d[0].0);
    }
}

} // verus!
