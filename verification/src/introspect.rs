//! Catalog introspection: the read-only statements that enumerate tables
//! and columns, and the parsing of catalog rows into column descriptors.
//!
//! Table names arriving here are data, bound through parameter slots, so a
//! name that does not exist simply matches no catalog row: absence is an
//! empty result, never an error.

use vstd::prelude::*;

use crate::builder::Statement;
use crate::strutil::{push_char, str_eq};
use crate::value::{find_key, Document, NativeValue, Value};

verus! {

/// One column of a table, as the catalog describes it.
#[derive(Debug, Clone, PartialEq)]
pub struct Field {
    pub name: String,
    pub constraint: Option<String>,
    pub ordinal_position: i32,
    pub data_type: String,
    pub char_max_len: Option<i32>,
    pub numeric_precision: Option<i32>,
    pub numeric_scale: Option<i32>,
    pub is_nullable: bool,
    pub is_unique: bool,
    pub is_auto_increment: bool,
    pub default_value: Option<String>,
}

/// A table together with its column descriptors.
#[derive(Debug)]
pub struct Collection {
    pub name: String,
    pub fields: Vec<Field>,
}

/// A bare table name, as `list_tables` returns it.
#[derive(Debug, Clone, PartialEq)]
pub struct Table {
    pub name: String,
}

/// A column in the flattened per-database view.
#[derive(Debug, Clone, PartialEq)]
pub struct VColumn {
    pub name: String,
    pub data_type: String,
    pub is_nullable: String,
    pub maximum_length: Option<i32>,
    pub default_value: Option<String>,
}

/// The catalog statement that lists the base tables of the default user
/// schema; views and system catalogs are excluded, and the catalog name is
/// bound, never interpolated.
pub fn tables_statement(catalog: &String) -> (st: Statement)
    ensures
        st.text@
            == "select table_name from information_schema.tables where table_schema = 'public' and table_type = 'BASE TABLE' and table_catalog = $1 order by table_name"@,
        st.binds@ =~= seq![NativeValue::Text(*catalog)],
{
    let mut text = String::new();
    text.append(
        "select table_name from information_schema.tables where table_schema = 'public' and table_type = 'BASE TABLE' and table_catalog = $1 order by table_name",
    );
    let mut binds: Vec<NativeValue> = Vec::new();
    binds.push(NativeValue::Text(catalog.clone()));
    proof {
        assert(text@ =~= "select table_name from information_schema.tables where table_schema = 'public' and table_type = 'BASE TABLE' and table_catalog = $1 order by table_name"@);
    }
    Statement { text, binds }
}

/// The catalog statement that lists one table's columns in ordinal order.
/// The table name is bound, never interpolated, so a name that exists
/// nowhere yields zero rows rather than an error.
pub fn columns_statement(table: &String) -> (st: Statement)
    ensures
        st.text@
            == "select column_name, ordinal_position, data_type, character_maximum_length, numeric_precision, numeric_scale, is_nullable, column_default from information_schema.columns where table_schema = 'public' and table_name = $1 order by ordinal_position"@,
        st.binds@ =~= seq![NativeValue::Text(*table)],
{
    let mut text = String::new();
    text.append(
        "select column_name, ordinal_position, data_type, character_maximum_length, numeric_precision, numeric_scale, is_nullable, column_default from information_schema.columns where table_schema = 'public' and table_name = $1 order by ordinal_position",
    );
    let mut binds: Vec<NativeValue> = Vec::new();
    binds.push(NativeValue::Text(table.clone()));
    proof {
        assert(text@ =~= "select column_name, ordinal_position, data_type, character_maximum_length, numeric_precision, numeric_scale, is_nullable, column_default from information_schema.columns where table_schema = 'public' and table_name = $1 order by ordinal_position"@);
    }
    Statement { text, binds }
}

/// Column descriptors in ascending ordinal order.
pub open spec fn sorted_by_ordinal(fs: Seq<Field>) -> bool {
    forall|i: int, j: int|
        0 <= i < j < fs.len() ==> fs[i].ordinal_position <= fs[j].ordinal_position
}

/// Orders column descriptors by ordinal position, ascending, keeping
/// exactly the given descriptors. An empty input stays empty: a table
/// with no catalog rows has no columns, which is not an error.
pub fn sort_columns(cols: Vec<Field>) -> (r: Vec<Field>)
    ensures
        sorted_by_ordinal(r@),
        r@.to_multiset() == cols@.to_multiset(),
        r@.len() == cols@.len(),
{
    broadcast use vstd::seq_lib::group_to_multiset_ensures;
    broadcast use vstd::multiset::group_multiset_axioms;

    let mut work = cols;
    let ghost all = work@;
    let mut out: Vec<Field> = Vec::new();
    while work.len() > 0
        invariant
            out@.to_multiset().add(work@.to_multiset()) =~= all.to_multiset(),
            out@.len() + work@.len() == all.len(),
            sorted_by_ordinal(out@),
            forall|a: int, b: int|
                0 <= a < out@.len() && 0 <= b < work@.len() ==> out@[a].ordinal_position
                    <= work@[b].ordinal_position,
        decreases work.len(),
    {
        let n = work.len();
        let mut m: usize = 0;
        let mut j: usize = 1;
        while j < n
            invariant
                0 <= m < j <= n,
                n == work@.len(),
                forall|k: int|
                    0 <= k < j ==> work@[m as int].ordinal_position
                        <= #[trigger] work@[k].ordinal_position,
            decreases n - j,
        {
            if work[j].ordinal_position < work[m].ordinal_position {
                m = j;
            }
            j += 1;
        }
        let ghost prev_work = work@;
        let ghost prev_out = out@;
        let x = work.remove(m);
        out.push(x);
        proof {
            assert(prev_work[m as int] == x);
            assert(work@ == prev_work.remove(m as int));
            vstd::seq_lib::to_multiset_remove::<Field>(prev_work, m as int);
            assert(out@ == prev_out.push(x));
            vstd::seq_lib::to_multiset_build::<Field>(prev_out, x);
            assert(work@.to_multiset() =~= prev_work.to_multiset().remove(x));
            assert(out@.to_multiset() =~= prev_out.to_multiset().insert(x));
            prev_work.to_multiset_ensures();
            assert(prev_work.contains(x));
            assert(prev_work.to_multiset().count(x) >= 1);
            assert(out@.to_multiset().add(work@.to_multiset()) =~= all.to_multiset());
        }
    }
    proof {
        assert(work@.to_multiset().len() == 0);
        assert(out@.to_multiset() =~= all.to_multiset());
    }
    out
}

/// What `serde_json::from_str::<Vec<String>>` yields on a given text, as
/// an abstract name: the result depends on the text alone.
pub uninterp spec fn json_string_list_of(s: Seq<char>) -> Option<Seq<Seq<char>>>;

/// The text views of an optional string list.
pub open spec fn string_list_view(r: Option<Vec<String>>) -> Option<Seq<Seq<char>>> {
    match r {
        None => None,
        Some(v) => Some(v@.map_values(|x: String| x@)),
    }
}

/// Relies on serde_json's `from_str::<Vec<String>>`: parses a JSON array
/// of strings, `None` on any malformed input.
#[verifier::external_body]
fn parse_json_string_list(s: &str) -> (r: Option<Vec<String>>)
    ensures
        string_list_view(r) == json_string_list_of(s@),
{
    serde_json::from_str::<Vec<String>>(s).ok()
}

/// The comma-separated segments of a text. Splitting is total: an empty
/// text has one empty segment, and every comma opens a new segment.
pub open spec fn spec_split_commas(s: Seq<char>) -> Seq<Seq<char>>
    decreases s.len(),
{
    if s.len() == 0 {
        seq![Seq::<char>::empty()]
    } else {
        let rest = spec_split_commas(s.drop_last());
        if s.last() == ',' {
            rest.push(Seq::empty())
        } else {
            rest.update(rest.len() - 1, rest.last().push(s.last()))
        }
    }
}

/// Splits a text on commas.
pub fn split_commas(s: &str) -> (r: Vec<String>)
    ensures
        r@.map_values(|x: String| x@) == spec_split_commas(s@),
{
    let n = s.unicode_len();
    let mut done: Vec<String> = Vec::new();
    let mut cur = String::new();
    let mut i: usize = 0;
    while i < n
        invariant
            0 <= i <= n,
            n == s@.len(),
            done@.map_values(|x: String| x@).push(cur@) == spec_split_commas(
                s@.subrange(0, i as int),
            ),
        decreases n - i,
    {
        let ghost prev_done = done@;
        let ghost prev_cur = cur@;
        let c = s.get_char(i);
        if c == ',' {
            done.push(cur);
            cur = String::new();
            proof {
                assert(done@.map_values(|x: String| x@) =~= prev_done.map_values(
                    |x: String| x@,
                ).push(prev_cur));
            }
        } else {
            push_char(&mut cur, c);
            proof {
                assert(cur@ =~= prev_cur.push(c));
            }
        }
        proof {
            assert(s@.subrange(0, i + 1).drop_last() =~= s@.subrange(0, i as int));
            assert(s@.subrange(0, i + 1).last() == s@[i as int]);
            assert(done@.map_values(|x: String| x@).push(cur@) =~= spec_split_commas(
                s@.subrange(0, i + 1),
            ));
        }
        i += 1;
    }
    done.push(cur);
    proof {
        assert(s@.subrange(0, n as int) =~= s@);
        assert(done@.map_values(|x: String| x@) =~= spec_split_commas(s@));
    }
    done
}

/// An ASCII decimal digit.
pub open spec fn is_digit(c: char) -> bool {
    48 <= c as u32 && c as u32 <= 57
}

/// A digit's numeric value.
pub open spec fn digit_val(c: char) -> int {
    c as u32 - 48
}

/// The value of a digit string, most significant first.
pub open spec fn dec_val(s: Seq<char>) -> int
    decreases s.len(),
{
    if s.len() == 0 {
        0
    } else {
        dec_val(s.drop_last()) * 10 + digit_val(s.last())
    }
}

/// A short unsigned decimal: one to nine digits, which covers any catalog
/// ordinal, length, precision or scale.
pub open spec fn is_plain_number(s: Seq<char>) -> bool {
    1 <= s.len() <= 9 && forall|i: int| 0 <= i < s.len() ==> is_digit(#[trigger] s[i])
}

spec fn pow10(n: nat) -> nat
    decreases n,
{
    if n == 0 {
        1
    } else {
        10 * pow10((n - 1) as nat)
    }
}

proof fn lemma_dec_val_bound(s: Seq<char>)
    requires
        forall|i: int| 0 <= i < s.len() ==> is_digit(#[trigger] s[i]),
    ensures
        0 <= dec_val(s) < pow10(s.len()),
    decreases s.len(),
{
    if s.len() > 0 {
        lemma_dec_val_bound(s.drop_last());
        assert(dec_val(s.drop_last()) * 10 + digit_val(s.last()) < 10 * pow10(
            (s.len() - 1) as nat,
        )) by (nonlinear_arith)
            requires
                dec_val(s.drop_last()) < pow10((s.len() - 1) as nat),
                digit_val(s.last()) < 10,
        ;
    }
}

proof fn lemma_pow10_mono(a: nat, b: nat)
    requires
        a <= b,
    ensures
        pow10(a) <= pow10(b),
    decreases b,
{
    if a < b {
        lemma_pow10_mono(a, (b - 1) as nat);
        assert(pow10(b) == 10 * pow10((b - 1) as nat));
    }
}

/// Parses a short unsigned decimal, at most nine digits; anything else is
/// `None`.
pub fn parse_i32(s: &str) -> (r: Option<i32>)
    ensures
        match r {
            Some(v) => is_plain_number(s@) && v == dec_val(s@),
            None => !is_plain_number(s@),
        },
{
    let n = s.unicode_len();
    if n == 0 || n > 9 {
        return None;
    }
    let mut acc: u32 = 0;
    let mut i: usize = 0;
    while i < n
        invariant
            0 <= i <= n,
            1 <= n <= 9,
            n == s@.len(),
            forall|j: int| 0 <= j < i ==> is_digit(#[trigger] s@[j]),
            acc == dec_val(s@.subrange(0, i as int)),
            acc < pow10(i as nat),
        decreases n - i,
    {
        let c = s.get_char(i);
        let u = c as u32;
        if u < 48 || u > 57 {
            return None;
        }
        let d = u - 48;
        proof {
            lemma_pow10_mono(i as nat, 8);
            reveal_with_fuel(pow10, 10);
            assert(pow10(8) == 100000000);
            assert(acc * 10 + d < pow10((i + 1) as nat)) by (nonlinear_arith)
                requires
                    acc < pow10(i as nat),
                    d < 10,
                    pow10((i + 1) as nat) == 10 * pow10(i as nat),
            ;
        }
        acc = acc * 10 + d;
        proof {
            assert(s@.subrange(0, i + 1).drop_last() =~= s@.subrange(0, i as int));
            assert(s@.subrange(0, i + 1).last() == s@[i as int]);
        }
        i += 1;
    }
    proof {
        assert(s@.subrange(0, n as int) =~= s@);
        lemma_pow10_mono(n as nat, 9);
        reveal_with_fuel(pow10, 10);
        assert(pow10(9) == 1000000000);
    }
    Some(acc as i32)
}

/// `s` with one leading `open` and one trailing `close` removed, where
/// present.
pub open spec fn spec_strip_wrap(s: Seq<char>, open: char, close: char) -> Seq<char> {
    let t = if s.len() > 0 && s[0] == open {
        s.subrange(1, s.len() as int)
    } else {
        s
    };
    if t.len() > 0 && t[t.len() - 1] == close {
        t.subrange(0, t.len() - 1)
    } else {
        t
    }
}

/// Removes one wrapping pair of characters, where present.
pub fn strip_wrap(s: &str, open: char, close: char) -> (r: String)
    ensures
        r@ == spec_strip_wrap(s@, open, close),
{
    let n = s.unicode_len();
    let from: usize = if n > 0 && s.get_char(0) == open {
        1
    } else {
        0
    };
    let to: usize = if n > from && s.get_char(n - 1) == close {
        n - 1
    } else {
        n
    };
    let sub = s.substring_char(from, to);
    let r = sub.to_owned();
    proof {
        assert(r@ =~= spec_strip_wrap(s@, open, close));
    }
    r
}

/// An optional catalog text: empty means absent, otherwise one wrapping
/// pair of double quotes is removed.
pub open spec fn opt_text(s: Seq<char>) -> Option<Seq<char>> {
    if s.len() == 0 {
        None
    } else {
        Some(spec_strip_wrap(s, '"', '"'))
    }
}

/// An optional catalog number: empty means absent, a short decimal its
/// value, anything else absent.
pub open spec fn opt_num(s: Seq<char>) -> Option<int> {
    if s.len() == 0 {
        None
    } else if is_plain_number(s) {
        Some(dec_val(s))
    } else {
        None
    }
}

/// The text view of an optional string.
pub open spec fn opt_string_view(o: Option<String>) -> Option<Seq<char>> {
    match o {
        None => None,
        Some(x) => Some(x@),
    }
}

/// The numeric view of an optional 32-bit integer.
pub open spec fn opt_i32_view(o: Option<i32>) -> Option<int> {
    match o {
        None => None,
        Some(x) => Some(x as int),
    }
}

/// Whether the comma-separated parts of one catalog row can yield a
/// descriptor: eleven parts, the second a short decimal ordinal.
pub open spec fn parts_parseable(parts: Seq<Seq<char>>) -> bool {
    parts.len() >= 11 && is_plain_number(parts[1])
}

/// How a descriptor relates to the parts of its catalog row.
pub open spec fn field_matches_parts(f: Field, parts: Seq<Seq<char>>) -> bool {
    &&& parts_parseable(parts)
    &&& f.name@ == parts[0]
    &&& f.ordinal_position == dec_val(parts[1])
    &&& opt_string_view(f.constraint) == opt_text(parts[2])
    &&& opt_i32_view(f.char_max_len) == opt_num(parts[3])
    &&& opt_i32_view(f.numeric_precision) == opt_num(parts[4])
    &&& opt_i32_view(f.numeric_scale) == opt_num(parts[5])
    &&& f.data_type@ == spec_strip_wrap(parts[6], '"', '"')
    &&& f.is_nullable == (parts[7] == "t"@)
    &&& f.is_unique == (parts[8] == "t"@)
    &&& f.is_auto_increment == (parts[9] == "t"@)
    &&& opt_string_view(f.default_value) == opt_text(parts[10])
}

/// An optional text part: empty is absent, otherwise unquoted.
fn opt_text_part(part: &String) -> (r: Option<String>)
    ensures
        opt_string_view(r) == opt_text(part@),
{
    if part.as_str().unicode_len() == 0 {
        None
    } else {
        Some(strip_wrap(part.as_str(), '"', '"'))
    }
}

/// An optional numeric part: empty is absent, a short decimal its value,
/// anything else absent.
fn opt_num_part(part: &String) -> (r: Option<i32>)
    ensures
        opt_i32_view(r) == opt_num(part@),
{
    if part.as_str().unicode_len() == 0 {
        None
    } else {
        parse_i32(part.as_str())
    }
}

/// Builds one descriptor from the comma-separated parts of a catalog row.
pub fn field_from_parts(parts: &Vec<String>) -> (r: Option<Field>)
    ensures
        match r {
            Some(f) => field_matches_parts(f, parts@.map_values(|x: String| x@)),
            None => !parts_parseable(parts@.map_values(|x: String| x@)),
        },
{
    if parts.len() < 11 {
        return None;
    }
    let ordinal = match parse_i32(parts[1].as_str()) {
        Some(v) => v,
        None => {
            return None;
        },
    };
    let f = Field {
        name: parts[0].clone(),
        ordinal_position: ordinal,
        constraint: opt_text_part(&parts[2]),
        char_max_len: opt_num_part(&parts[3]),
        numeric_precision: opt_num_part(&parts[4]),
        numeric_scale: opt_num_part(&parts[5]),
        data_type: strip_wrap(parts[6].as_str(), '"', '"'),
        is_nullable: str_eq(parts[7].as_str(), "t"),
        is_unique: str_eq(parts[8].as_str(), "t"),
        is_auto_increment: str_eq(parts[9].as_str(), "t"),
        default_value: opt_text_part(&parts[10]),
    };
    Some(f)
}

/// Parses one catalog row, written as a parenthesized, comma-separated
/// tuple, into a descriptor.
pub fn parse_field(s: &str) -> (r: Option<Field>)
    ensures
        match r {
            Some(f) => field_matches_parts(
                f,
                spec_split_commas(spec_strip_wrap(s@, '(', ')')),
            ),
            None => !parts_parseable(spec_split_commas(spec_strip_wrap(s@, '(', ')'))),
        },
{
    let inner = strip_wrap(s, '(', ')');
    let parts = split_commas(inner.as_str());
    field_from_parts(&parts)
}

/// Whether one aggregated catalog entry parses into a descriptor.
pub open spec fn entry_parses(entry: Seq<char>, f: Field) -> bool {
    field_matches_parts(f, spec_split_commas(spec_strip_wrap(entry, '(', ')')))
}

/// The aggregate text with its braces swapped for brackets.
pub open spec fn bracket_swapped(s: Seq<char>) -> Seq<char> {
    "["@ + s.subrange(1, s.len() - 1) + "]"@
}

/// Whether some entry of the list cannot yield a descriptor.
pub open spec fn some_entry_unparseable(entries: Seq<Seq<char>>) -> bool {
    exists|i: int|
        0 <= i < entries.len() && !parts_parseable(
            spec_split_commas(spec_strip_wrap(#[trigger] entries[i], '(', ')')),
        )
}

/// Parses the aggregated column description of one table: a braced list
/// of quoted row tuples, as the catalog aggregation returns it. `None`
/// when the aggregate or any row in it is malformed.
pub fn parse_introspect(raw: &str) -> (r: Option<Vec<Field>>)
    ensures
        match r {
            Some(fields) => {
                &&& raw@.len() >= 2
                &&& json_string_list_of(bracket_swapped(raw@)) matches Some(entries)
                    && fields@.len() == entries.len() && (forall|i: int|
                    0 <= i < entries.len() ==> entry_parses(entries[i], #[trigger] fields@[i]))
            },
            None => raw@.len() < 2 || json_string_list_of(bracket_swapped(raw@)) is None || (
            json_string_list_of(bracket_swapped(raw@)) matches Some(entries)
                && some_entry_unparseable(entries)),
        },
{
    let n = raw.unicode_len();
    if n < 2 {
        return None;
    }
    proof {
        reveal_strlit("{");
        reveal_strlit("}");
        reveal_strlit("[");
        reveal_strlit("]");
    }
    let swapped = crate::util::replace_first_and_last(raw, "{", "}", "[", "]");
    proof {
        assert(swapped@ =~= bracket_swapped(raw@));
    }
    let entries = match parse_json_string_list(swapped.as_str()) {
        Some(v) => v,
        None => {
            return None;
        },
    };
    let m = entries.len();
    let mut fields: Vec<Field> = Vec::new();
    let mut i: usize = 0;
    while i < m
        invariant
            0 <= i <= m,
            m == entries@.len(),
            raw@.len() >= 2,
            json_string_list_of(bracket_swapped(raw@)) == Some(
                entries@.map_values(|x: String| x@),
            ),
            fields@.len() == i,
            forall|j: int|
                0 <= j < i ==> entry_parses(entries@[j]@, #[trigger] fields@[j]),
        decreases m - i,
    {
        match parse_field(entries[i].as_str()) {
            Some(f) => fields.push(f),
            None => {
                proof {
                    let ghost spec_entries = entries@.map_values(|x: String| x@);
                    assert(spec_entries[i as int] == entries@[i as int]@);
                    assert(!parts_parseable(
                        spec_split_commas(spec_strip_wrap(spec_entries[i as int], '(', ')')),
                    ));
                    assert(some_entry_unparseable(spec_entries));
                }
                return None;
            },
        }
        i += 1;
    }
    proof {
        let ghost spec_entries = entries@.map_values(|x: String| x@);
        assert(spec_entries.len() == entries@.len());
        assert(forall|j: int|
            0 <= j < spec_entries.len() ==> #[trigger] spec_entries[j] == entries@[j]@);
    }
    Some(fields)
}

/// The value under a key of a document, if the key is present.
pub open spec fn lookup(s: Seq<(String, Value)>, k: Seq<char>) -> Option<Value> {
    if find_key(s, k) >= 0 {
        Some(s[find_key(s, k)].1)
    } else {
        None
    }
}

/// The text a catalog cell holds, if it holds text.
pub open spec fn text_of(v: Option<Value>) -> Option<Seq<char>> {
    match v {
        Some(Value::Text(s)) => Some(s@),
        _ => None,
    }
}

/// The 32-bit number a catalog cell holds, if it holds one in range.
pub open spec fn num_of(v: Option<Value>) -> Option<int> {
    match v {
        Some(Value::Integer(x)) => if i32::MIN <= x <= i32::MAX {
            Some(x as int)
        } else {
            None
        },
        _ => None,
    }
}

/// The optional text under a key of a catalog row.
fn catalog_text(doc: &Document, k: &str) -> (r: Option<String>)
    ensures
        opt_string_view(r) == text_of(lookup(doc@, k@)),
{
    match doc.get(k) {
        Some(Value::Text(s)) => Some(s.clone()),
        _ => None,
    }
}

/// The optional 32-bit number under a key of a catalog row.
fn catalog_num(doc: &Document, k: &str) -> (r: Option<i32>)
    ensures
        opt_i32_view(r) == num_of(lookup(doc@, k@)),
{
    match doc.get(k) {
        Some(Value::Integer(x)) => {
            let x = *x;
            if x < i32::MIN as i64 || x > i32::MAX as i64 {
                None
            } else {
                Some(x as i32)
            }
        },
        _ => None,
    }
}

/// Builds one column descriptor from a decoded catalog row, as the
/// column-listing statement returns it. `None` exactly when the row lacks
/// a textual name, a textual type, or an in-range ordinal. The row carries
/// no constraint data, so those members stay absent.
pub fn field_from_catalog_row(doc: &Document) -> (r: Option<Field>)
    ensures
        match r {
            Some(f) => {
                &&& text_of(lookup(doc@, "column_name"@)) == Some(f.name@)
                &&& num_of(lookup(doc@, "ordinal_position"@)) == Some(f.ordinal_position as int)
                &&& text_of(lookup(doc@, "data_type"@)) == Some(f.data_type@)
                &&& opt_i32_view(f.char_max_len) == num_of(
                    lookup(doc@, "character_maximum_length"@),
                )
                &&& opt_i32_view(f.numeric_precision) == num_of(
                    lookup(doc@, "numeric_precision"@),
                )
                &&& opt_i32_view(f.numeric_scale) == num_of(lookup(doc@, "numeric_scale"@))
                &&& f.is_nullable == (text_of(lookup(doc@, "is_nullable"@)) == Some("YES"@))
                &&& opt_string_view(f.default_value) == text_of(
                    lookup(doc@, "column_default"@),
                )
                &&& f.constraint is None
                &&& f.is_unique == false
                &&& f.is_auto_increment == false
            },
            None => text_of(lookup(doc@, "column_name"@)) is None || num_of(
                lookup(doc@, "ordinal_position"@),
            ) is None || text_of(lookup(doc@, "data_type"@)) is None,
        },
{
    let name = match catalog_text(doc, "column_name") {
        Some(n) => n,
        None => {
            return None;
        },
    };
    let ordinal = match catalog_num(doc, "ordinal_position") {
        Some(o) => o,
        None => {
            return None;
        },
    };
    let data_type = match catalog_text(doc, "data_type") {
        Some(d) => d,
        None => {
            return None;
        },
    };
    let nullable = match doc.get("is_nullable") {
        Some(Value::Text(s)) => str_eq(s.as_str(), "YES"),
        _ => false,
    };
    Some(
        Field {
            name,
            constraint: None,
            ordinal_position: ordinal,
            data_type,
            char_max_len: catalog_num(doc, "character_maximum_length"),
            numeric_precision: catalog_num(doc, "numeric_precision"),
            numeric_scale: catalog_num(doc, "numeric_scale"),
            is_nullable: nullable,
            is_unique: false,
            is_auto_increment: false,
            default_value: catalog_text(doc, "column_default"),
        },
    )
}

} // verus!
