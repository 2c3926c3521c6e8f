//! The allow-list for identifiers (table and column names).
//!
//! Identifiers are never sent as bound parameters: a valid one is interposed
//! into statement text between double quotes, and an invalid one is rejected
//! before any text is built.

use vstd::prelude::*;

verus! {

/// An ASCII letter, `a`..`z` or `A`..`Z`.
pub open spec fn is_ascii_letter(c: char) -> bool {
    (97 <= c as u32 && c as u32 <= 122) || (65 <= c as u32 && c as u32 <= 90)
}

/// A character allowed anywhere in an identifier: an ASCII letter, an ASCII
/// digit, or an underscore.
pub open spec fn is_ident_char(c: char) -> bool {
    is_ascii_letter(c) || (48 <= c as u32 && c as u32 <= 57) || c as u32 == 95
}

/// A valid identifier: 1 to 63 characters, starting with an ASCII letter,
/// containing only ASCII letters, digits and underscores. In particular it
/// holds no quote, no semicolon and no whitespace.
pub open spec fn is_valid_identifier(s: Seq<char>) -> bool {
    &&& 1 <= s.len() <= 63
    &&& is_ascii_letter(s[0])
    &&& forall|i: int| 0 <= i < s.len() ==> is_ident_char(#[trigger] s[i])
}

/// A valid identifier interposed into statement text, between double quotes.
pub open spec fn quoted_ident(s: Seq<char>) -> Seq<char> {
    seq!['"'] + s + seq!['"']
}

/// Decides membership in the identifier allow-list.
pub fn validate_identifier(s: &str) -> (r: bool)
    ensures
        r == is_valid_identifier(s@),
{
    let len = s.unicode_len();
    if len < 1 || len > 63 {
        return false;
    }
    let c0 = s.get_char(0);
    let u0 = c0 as u32;
    if !((97 <= u0 && u0 <= 122) || (65 <= u0 && u0 <= 90)) {
        return false;
    }
    let mut i: usize = 1;
    while i < len
        invariant
            1 <= i <= len,
            len == s@.len(),
            len <= 63,
            is_ascii_letter(s@[0]),
            forall|j: int| 0 <= j < i ==> is_ident_char(#[trigger] s@[j]),
        decreases len - i,
    {
        let c = s.get_char(i);
        let u = c as u32;
        if !((97 <= u && u <= 122) || (65 <= u && u <= 90) || (48 <= u && u <= 57) || u == 95) {
            return false;
        }
        i += 1;
    }
    true
}

/// No sequence containing a double quote or a semicolon is a valid
/// identifier, so neither can ever be interposed into statement text.
pub proof fn lemma_quote_or_semicolon_never_valid(s: Seq<char>)
    requires
        exists|i: int| 0 <= i < s.len() && (s[i] == '"' || s[i] == ';'),
    ensures
        !is_valid_identifier(s),
{
    let i = choose|i: int| 0 <= i < s.len() && (s[i] == '"' || s[i] == ';');
    assert(!is_ident_char(s[i]));
}

} // verus!
