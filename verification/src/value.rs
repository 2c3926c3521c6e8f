//! The value model: the uniform, type-tagged representation of a row cell,
//! the engine-side form of a value, and the order-preserving document.

use vstd::prelude::*;

verus! {

/// The uniform representation of one column value, as callers see it.
///
/// Integer widths narrower than 64 bits are widened before they reach the
/// library; 32-bit floats are widened to 64 bits. No other variant loses
/// precision. An unmapped native type becomes `Unsupported` and keeps the
/// original type name for diagnostics.
#[derive(Debug, Clone, PartialEq)]
pub enum Value {
    Null,
    Bool(bool),
    Integer(i64),
    /// The IEEE 754 binary64 bit pattern of a 64-bit float.
    Float(u64),
    Text(String),
    /// The serialized text of a structured value, carried opaquely.
    Json(String),
    /// Seconds since the Unix epoch, UTC.
    Timestamp(i64),
    Date { year: i32, month: u8, day: u8 },
    Time { hour: u8, minute: u8, second: u8 },
    /// An unmapped native type; carries the original native type name.
    Unsupported(String),
}

/// A value in the engine's terms: what one native column read produced, and
/// the form in which a parameter is bound.
#[derive(Debug, Clone, PartialEq)]
pub enum NativeValue {
    Null,
    Bool(bool),
    Int(i64),
    /// The IEEE 754 binary64 bit pattern of a 64-bit float.
    Float(u64),
    Text(String),
    /// Serialized JSON text.
    Json(String),
    /// Seconds since the Unix epoch, UTC.
    Timestamp(i64),
    Date { year: i32, month: u8, day: u8 },
    Time { hour: u8, minute: u8, second: u8 },
}

/// An ordered mapping from column name to value; keys are unique.
#[derive(Debug)]
pub struct Document {
    entries: Vec<(String, Value)>,
}

impl View for Document {
    type V = Seq<(String, Value)>;

    closed spec fn view(&self) -> Seq<(String, Value)> {
        self.entries@
    }
}

/// The key views of a document's entries, in entry order.
pub open spec fn spec_keys(s: Seq<(String, Value)>) -> Seq<Seq<char>> {
    s.map_values(|p: (String, Value)| p.0@)
}

/// The index of the first entry whose key reads `k`, or -1.
pub open spec fn find_key(s: Seq<(String, Value)>, k: Seq<char>) -> int
    decreases s.len(),
{
    if s.len() == 0 {
        -1
    } else if s[0].0@ == k {
        0
    } else {
        let r = find_key(s.drop_first(), k);
        if r < 0 {
            -1
        } else {
            r + 1
        }
    }
}

/// Well-formedness: no two entries share a key.
pub open spec fn doc_wf(s: Seq<(String, Value)>) -> bool {
    forall|i: int, j: int| 0 <= i < j < s.len() ==> s[i].0@ != s[j].0@
}

/// Insertion in the order-preserving sense: an existing key keeps its
/// position and takes the new value; a new key is appended.
pub open spec fn spec_insert(s: Seq<(String, Value)>, k: String, v: Value) -> Seq<
    (String, Value),
> {
    let i = find_key(s, k@);
    if i >= 0 {
        s.update(i, (s[i].0, v))
    } else {
        s.push((k, v))
    }
}

proof fn lemma_find_key_at(s: Seq<(String, Value)>, k: Seq<char>, i: int)
    requires
        0 <= i < s.len(),
        s[i].0@ == k,
        forall|j: int| 0 <= j < i ==> s[j].0@ != k,
    ensures
        find_key(s, k) == i,
    decreases i,
{
    if i > 0 {
        lemma_find_key_at(s.drop_first(), k, i - 1);
    }
}

proof fn lemma_find_key_none(s: Seq<(String, Value)>, k: Seq<char>)
    requires
        forall|j: int| 0 <= j < s.len() ==> s[j].0@ != k,
    ensures
        find_key(s, k) == -1,
    decreases s.len(),
{
    if s.len() > 0 {
        lemma_find_key_none(s.drop_first(), k);
    }
}

impl Document {
    /// The empty document.
    pub fn new() -> (r: Document)
        ensures
            r@ == Seq::<(String, Value)>::empty(),
            doc_wf(r@),
    {
        Document { entries: Vec::new() }
    }

    pub fn len(&self) -> (r: usize)
        ensures
            r == self@.len(),
    {
        self.entries.len()
    }

    pub fn is_empty(&self) -> (r: bool)
        ensures
            r == (self@.len() == 0),
    {
        self.entries.len() == 0
    }

    /// The entry at position `i`.
    pub fn entry_at(&self, i: usize) -> (r: &(String, Value))
        requires
            i < self@.len(),
        ensures
            *r == self@[i as int],
    {
        &self.entries[i]
    }

    /// Inserts `v` under `k`: an existing key keeps its position and takes
    /// the new value, a new key is appended. Well-formedness is preserved.
    pub fn insert(&mut self, k: String, v: Value)
        ensures
            final(self)@ == spec_insert(old(self)@, k, v),
            doc_wf(old(self)@) ==> doc_wf(final(self)@),
    {
        let n = self.entries.len();
        let mut i: usize = 0;
        while i < n
            invariant
                0 <= i <= n,
                n == self@.len(),
                self == old(self),
                forall|j: int| 0 <= j < i ==> self@[j].0@ != k@,
            decreases n - i,
        {
            if str_eq_strings(&self.entries[i].0, &k) {
                let kept = self.entries[i].0.clone();
                self.entries.set(i, (kept, v));
                proof {
                    lemma_find_key_at(old(self)@, k@, i as int);
                }
                return ;
            }
            i += 1;
        }
        self.entries.push((k, v));
        proof {
            lemma_find_key_none(old(self)@, k@);
            assert(doc_wf(old(self)@) ==> doc_wf(self@)) by {
                if doc_wf(old(self)@) {
                    assert(forall|a: int, b: int|
                        0 <= a < b < self@.len() ==> self@[a].0@ != self@[b].0@);
                }
            }
        }
    }

    /// Looks a key up; `None` exactly when the key is absent.
    pub fn get(&self, k: &str) -> (r: Option<&Value>)
        ensures
            match r {
                Some(v) => {
                    &&& find_key(self@, k@) >= 0
                    &&& *v == self@[find_key(self@, k@)].1
                },
                None => find_key(self@, k@) == -1,
            },
    {
        let n = self.entries.len();
        let mut i: usize = 0;
        while i < n
            invariant
                0 <= i <= n,
                n == self@.len(),
                forall|j: int| 0 <= j < i ==> self@[j].0@ != k@,
            decreases n - i,
        {
            if crate::strutil::str_eq(self.entries[i].0.as_str(), k) {
                proof {
                    lemma_find_key_at(self@, k@, i as int);
                }
                return Some(&self.entries[i].1);
            }
            i += 1;
        }
        proof {
            lemma_find_key_none(self@, k@);
        }
        None
    }

    /// The document's keys, in entry order.
    pub fn keys(&self) -> (r: Vec<String>)
        ensures
            r@.len() == self@.len(),
            forall|i: int| 0 <= i < r@.len() ==> r@[i] == self@[i].0,
    {
        let n = self.entries.len();
        let mut out: Vec<String> = Vec::new();
        let mut i: usize = 0;
        while i < n
            invariant
                0 <= i <= n,
                n == self@.len(),
                out@.len() == i,
                forall|j: int| 0 <= j < i ==> out@[j] == self@[j].0,
            decreases n - i,
        {
            out.push(self.entries[i].0.clone());
            i += 1;
        }
        out
    }
}

/// Equality of two owned strings, by their text.
fn str_eq_strings(a: &String, b: &String) -> (r: bool)
    ensures
        r == (a@ == b@),
{
    crate::strutil::str_eq(a.as_str(), b.as_str())
}

} // verus!
