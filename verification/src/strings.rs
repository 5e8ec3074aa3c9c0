//! Standard-library text transformations, whitespace trimming and lowercasing,
//! with what they return stated over character sequences (Unicode lowercasing
//! beyond ASCII is named).
use vstd::prelude::*;
use crate::color::std_is_whitespace;

verus! {

/// What `str::to_lowercase` returns for a string with a character beyond
/// ASCII: its Unicode lowercase form.
pub uninterp spec fn unicode_lowercase(s: Seq<char>) -> Seq<char>;

/// Where the run of white space that starts at position `i` ends.
pub open spec fn ws_run_end(s: Seq<char>, i: nat) -> nat
    decreases s.len() - i,
{
    if i < s.len() && std_is_whitespace(s[i as int]) { ws_run_end(s, i + 1) } else { i }
}

/// Where the run of white space that ends before position `n` starts.
pub open spec fn ws_run_start(s: Seq<char>, n: nat) -> nat
    decreases n,
{
    if 0 < n && n <= s.len() && std_is_whitespace(s[n - 1]) { ws_run_start(s, (n - 1) as nat) } else { n }
}

/// What `str::trim_start` returns: the characters without the leading white
/// space (see `std_is_whitespace`).
pub open spec fn std_trim_start(s: Seq<char>) -> Seq<char> {
    s.skip(ws_run_end(s, 0) as int)
}

/// What `str::trim_end` returns: the characters without the trailing white
/// space.
pub open spec fn std_trim_end(s: Seq<char>) -> Seq<char> {
    s.take(ws_run_start(s, s.len()) as int)
}

/// What `str::trim` returns: the characters without leading and trailing
/// white space.
pub open spec fn std_trim(s: Seq<char>) -> Seq<char> {
    std_trim_start(std_trim_end(s))
}

/// Whether every character is ASCII.
pub open spec fn all_ascii(s: Seq<char>) -> bool {
    forall|i: int| 0 <= i < s.len() ==> (#[trigger] s[i] as u32) < 0x80
}

/// ASCII capitals made small, every other character kept.
pub open spec fn ascii_lowercased(s: Seq<char>) -> Seq<char> {
    Seq::new(s.len(), |i: int| if 'A' <= s[i] <= 'Z' { ((s[i] as u32) + 32) as char } else { s[i] })
}

/// What `str::to_lowercase` returns: for ASCII text, `A` to `Z` made `a`
/// to `z` and all else kept; otherwise the Unicode lowercase form.
pub open spec fn std_lowercase(s: Seq<char>) -> Seq<char> {
    if all_ascii(s) { ascii_lowercased(s) } else { unicode_lowercase(s) }
}

/// Calls `str::to_lowercase`: the Unicode lowercase form of `s`. Of ASCII
/// text it states what the Unicode lowercase mapping gives there (`A` to `Z`
/// become `a` to `z`, all else is kept); of other text the result is named by
/// `unicode_lowercase`.
#[verifier::external_body]
pub fn to_lowercase(s: &str) -> (r: String)
    ensures
        all_ascii(s@) ==> r@ == ascii_lowercased(s@),
        !all_ascii(s@) ==> r@ == unicode_lowercase(s@),
{
    s.to_lowercase()
}

/// Calls `str::trim`: `s` without leading and trailing white space (see
/// `std_trim`), as its documentation states.
#[verifier::external_body]
pub fn trim(s: &str) -> (r: &str)
    ensures
        r@ == std_trim(s@),
{
    s.trim()
}

/// Calls `str::trim_end`: `s` without trailing white space (see
/// `std_trim_end`), as its documentation states.
#[verifier::external_body]
pub fn trim_end(s: &str) -> (r: &str)
    ensures
        r@ == std_trim_end(s@),
{
    s.trim_end()
}

/// Calls `str::trim_start`: `s` without leading white space (see
/// `std_trim_start`), as its documentation states.
#[verifier::external_body]
pub fn trim_start(s: &str) -> (r: &str)
    ensures
        r@ == std_trim_start(s@),
{
    s.trim_start()
}

} // verus!
