//! Small text helpers shared by the introspection layer.

use vstd::prelude::*;

use crate::introspect::Field;

verus! {

/// Replaces the first `first.len()` characters of `s` with
/// `first_replace`, and the last `last.len()` with `last_replace`. The
/// affected ranges must not overlap.
pub fn replace_first_and_last(
    s: &str,
    first: &str,
    last: &str,
    first_replace: &str,
    last_replace: &str,
) -> (r: String)
    requires
        first@.len() + last@.len() <= s@.len(),
    ensures
        r@ == first_replace@ + s@.subrange(
            first@.len() as int,
            s@.len() - last@.len(),
        ) + last_replace@,
{
    let n = s.unicode_len();
    let nf = first.unicode_len();
    let nl = last.unicode_len();
    let mid = s.substring_char(nf, n - nl);
    let mut out = String::new();
    out.append(first_replace);
    out.append(mid);
    out.append(last_replace);
    proof {
        assert(out@ =~= first_replace@ + s@.subrange(
            first@.len() as int,
            s@.len() - last@.len(),
        ) + last_replace@);
    }
    out
}

/// The column-definition list a field sequence renders to: each entry
/// preceded by a comma and a space, name then type.
pub open spec fn table_fields_text(fs: Seq<Field>) -> Seq<char>
    decreases fs.len(),
{
    if fs.len() == 0 {
        Seq::empty()
    } else {
        table_fields_text(fs.drop_last()) + ", "@ + fs.last().name@ + " "@
            + fs.last().data_type@
    }
}

/// Renders fields as a column-definition list.
pub fn table_fields(fields: &Vec<Field>) -> (r: String)
    ensures
        r@ == table_fields_text(fields@),
{
    let n = fields.len();
    let mut out = String::new();
    let mut i: usize = 0;
    while i < n
        invariant
            0 <= i <= n,
            n == fields@.len(),
            out@ == table_fields_text(fields@.subrange(0, i as int)),
        decreases n - i,
    {
        out.append(", ");
        out.append(fields[i].name.as_str());
        out.append(" ");
        out.append(fields[i].data_type.as_str());
        proof {
            assert(fields@.subrange(0, i + 1).drop_last() =~= fields@.subrange(0, i as int));
            assert(out@ =~= table_fields_text(fields@.subrange(0, i + 1)));
        }
        i += 1;
    }
    proof {
        assert(fields@.subrange(0, n as int) =~= fields@);
    }
    out
}

} // verus!
