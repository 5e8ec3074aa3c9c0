//! Helpers for log records: reading field values.
use vstd::prelude::*;
use vstd::string::StrSliceExecFns;

verus! {

/// A value without one pair of surrounding double quotes, where it has them.
pub open spec fn unquoted(v: Seq<char>) -> Seq<char> {
    if v.len() >= 2 && v[0] == '"' && v[v.len() - 1] == '"' {
        v.subrange(1, v.len() - 1)
    } else {
        v
    }
}

/// Strip one pair of double quotes around a field value (see `unquoted`).
pub fn strip_quotes(value: &str) -> (r: &str)
    ensures
        r@ == unquoted(value@),
{
    let n = value.unicode_len();
    if n >= 2 && value.get_char(0) == '"' && value.get_char(n - 1) == '"' {
        value.substring_char(1, n - 1)
    } else {
        value
    }
}

} // verus!
