//! Unicode character cell width calculations.
//!
//! The display width of text in terminal cells: most characters take one
//! cell, wide characters (CJK, many emoji) take two, control characters none.
use vstd::prelude::*;
use crate::text_ops::{chars_of, owned, push_repeat, repeat_spec, spaces, string_from_range};

verus! {

/// What `UnicodeWidthChar::width` of the unicode-width crate returns for `c`.
pub uninterp spec fn unicode_width(c: char) -> Option<usize>;

/// Calls `UnicodeWidthChar::width` (unicode-width). Its source states: code points
/// below U+0020 and from U+007F below U+00A0 are control characters (`None`),
/// U+0020..=U+007E are one column wide, and every other character gets a width
/// from the crate's tables, at most 3. Which width a character above U+009F gets
/// is left to the name `unicode_width`.
#[verifier::external_body]
fn unicode_char_width(c: char) -> (w: Option<usize>)
    ensures
        w == unicode_width(c),
        (c as u32) < 0x20 ==> w is None,
        0x20 <= (c as u32) < 0x7f ==> w == Some(1usize),
        0x7f <= (c as u32) < 0xa0 ==> w is None,
        (c as u32) >= 0xa0 ==> (w is Some && w->0 <= 3),
{
    unicode_width::UnicodeWidthChar::width(c)
}

/// Cell width of one character: its Unicode width, or 0 for control characters.
pub open spec fn char_cells(c: char) -> nat {
    match unicode_width(c) {
        Some(w) => w as nat,
        None => 0,
    }
}

/// Cell width of a sequence of characters: the sum of the widths of its characters.
pub open spec fn cells(s: Seq<char>) -> nat
    decreases s.len(),
{
    if s.len() == 0 {
        0
    } else {
        cells(s.drop_last()) + char_cells(s.last())
    }
}

/// Number of characters that `truncate` keeps: characters are taken from the
/// front while the running width stays within `max`; the first character that
/// would exceed it stops the scan.
pub open spec fn fit_count(s: Seq<char>, max: nat) -> nat
    decreases s.len(),
{
    if s.len() == 0 {
        0
    } else if char_cells(s[0]) > max {
        0
    } else {
        1 + fit_count(s.drop_first(), (max - char_cells(s[0])) as nat)
    }
}

/// Number of bytes of the UTF-8 encoding of `c`.
pub open spec fn utf8_len(c: char) -> nat {
    if (c as u32) < 0x80 {
        1
    } else if (c as u32) < 0x800 {
        2
    } else if (c as u32) < 0x10000 {
        3
    } else {
        4
    }
}

/// Number of bytes of the UTF-8 encoding of a character sequence.
pub open spec fn byte_len(s: Seq<char>) -> nat
    decreases s.len(),
{
    if s.len() == 0 {
        0
    } else {
        byte_len(s.drop_last()) + utf8_len(s.last())
    }
}

/// Splitting off the last character of a prefix.
pub proof fn lemma_take_push(s: Seq<char>, i: int)
    requires
        0 <= i < s.len(),
    ensures
        s.take(i + 1).drop_last() == s.take(i),
        s.take(i + 1).last() == s[i],
{
    assert(s.take(i + 1).drop_last() =~= s.take(i));
}

/// Widths add up over concatenation.
pub proof fn lemma_cells_concat(a: Seq<char>, b: Seq<char>)
    ensures
        cells(a + b) == cells(a) + cells(b),
    decreases b.len(),
{
    if b.len() == 0 {
        assert(a + b =~= a);
    } else {
        assert((a + b).drop_last() =~= a + b.drop_last());
        lemma_cells_concat(a, b.drop_last());
    }
}

/// Byte lengths add up over concatenation.
pub proof fn lemma_byte_len_concat(a: Seq<char>, b: Seq<char>)
    ensures
        byte_len(a + b) == byte_len(a) + byte_len(b),
    decreases b.len(),
{
    if b.len() == 0 {
        assert(a + b =~= a);
    } else {
        assert((a + b).drop_last() =~= a + b.drop_last());
        lemma_byte_len_concat(a, b.drop_last());
    }
}

/// The width of a prefix never exceeds the width of the whole.
pub proof fn lemma_cells_prefix(s: Seq<char>, i: int)
    requires
        0 <= i <= s.len(),
    ensures
        cells(s.take(i)) <= cells(s),
{
    lemma_cells_concat(s.take(i), s.skip(i));
    assert(s.take(i) + s.skip(i) =~= s);
}

/// The byte length of a prefix never exceeds that of the whole.
pub proof fn lemma_byte_len_prefix(s: Seq<char>, i: int)
    requires
        0 <= i <= s.len(),
    ensures
        byte_len(s.take(i)) <= byte_len(s),
{
    lemma_byte_len_concat(s.take(i), s.skip(i));
    assert(s.take(i) + s.skip(i) =~= s);
}

/// A single character's width.
pub proof fn lemma_cells_single(c: char)
    ensures
        cells(seq![c]) == char_cells(c),
{
    assert(seq![c].drop_last() =~= Seq::<char>::empty());
    assert(seq![c].last() == c);
    assert(cells(Seq::<char>::empty()) == 0);
}

/// The kept prefix of `fit_count` fits within the limit, and the next character does not.
pub proof fn lemma_fit_count(s: Seq<char>, max: nat)
    ensures
        fit_count(s, max) <= s.len(),
        cells(s.take(fit_count(s, max) as int)) <= max,
        fit_count(s, max) < s.len() ==> cells(s.take(fit_count(s, max) as int)) + char_cells(
            s[fit_count(s, max) as int],
        ) > max,
    decreases s.len(),
{
    if s.len() == 0 {
        assert(s.take(0) =~= Seq::<char>::empty());
    } else if char_cells(s[0]) > max {
        assert(s.take(0) =~= Seq::<char>::empty());
    } else {
        let rest = s.drop_first();
        let m = (max - char_cells(s[0])) as nat;
        lemma_fit_count(rest, m);
        let k = fit_count(rest, m);
        assert(s.take(k + 1int) =~= seq![s[0]] + rest.take(k as int));
        lemma_cells_concat(seq![s[0]], rest.take(k as int));
        lemma_cells_single(s[0]);
        if k < rest.len() {
            assert(s[k + 1int] == rest[k as int]);
        }
    }
}

/// Unfolds one step of `fit_count` from the front.
pub proof fn lemma_fit_count_step(s: Seq<char>, max: nat, i: int, used: nat)
    requires
        0 <= i < s.len(),
        used == cells(s.take(i)),
        used <= max,
        fit_count(s, max) >= i,
    ensures
        fit_count(s, max) == i <==> used + char_cells(s[i]) > max,
    decreases i,
{
    if i == 0 {
        assert(s.take(0) =~= Seq::<char>::empty());
        if char_cells(s[0]) <= max {
            assert(fit_count(s, max) >= 1);
        }
    } else {
        let rest = s.drop_first();
        lemma_cells_concat(seq![s[0]], rest.take(i - 1));
        assert(s.take(i) =~= seq![s[0]] + rest.take(i - 1));
        lemma_cells_single(s[0]);
        assert(char_cells(s[0]) <= max);
        lemma_fit_count_step(rest, (max - char_cells(s[0])) as nat, i - 1, (used - char_cells(s[0])) as nat);
    }
}

/// Get the cell width of a single character.
///
/// Most characters are 1 cell wide, CJK characters and some emoji are 2 cells
/// wide, control characters have 0 width.
pub fn get_character_cell_size(c: char) -> (w: usize)
    ensures
        w == char_cells(c),
        w <= 3,
        0x20 <= (c as u32) < 0x7f ==> w == 1,
        (c as u32) < 0x20 || (0x7f <= (c as u32) < 0xa0) ==> w == 0,
{
    match unicode_char_width(c) {
        Some(w) => w,
        None => 0,
    }
}

/// Cell width of a character vector.
pub fn cells_of(v: &Vec<char>) -> (w: usize)
    requires
        cells(v@) <= usize::MAX,
    ensures
        w == cells(v@),
{
    let mut total: usize = 0;
    let mut i: usize = 0;
    while i < v.len()
        invariant
            i <= v@.len(),
            total == cells(v@.take(i as int)),
            cells(v@) <= usize::MAX,
        decreases v.len() - i,
    {
        proof {
            lemma_take_push(v@, i as int);
            lemma_cells_prefix(v@, i + 1);
        }
        let w = get_character_cell_size(v[i]);
        total = total + w;
        i += 1;
    }
    assert(v@.take(v@.len() as int) =~= v@);
    total
}

/// Get the total cell width of a string: the sum of the widths of its characters.
pub fn cell_len(text: &str) -> (w: usize)
    requires
        cells(text@) <= usize::MAX,
    ensures
        w == cells(text@),
{
    let v = chars_of(text);
    cells_of(&v)
}

/// Get the total cell width of a string without caching.
pub fn cell_len_uncached(text: &str) -> (w: usize)
    requires
        cells(text@) <= usize::MAX,
    ensures
        w == cells(text@),
{
    cell_len(text)
}

/// The number of leading characters of `v` kept by width truncation to `max_width`,
/// and their width.
pub fn fit_prefix(v: &Vec<char>, max_width: usize) -> (r: (usize, usize))
    ensures
        r.0 == fit_count(v@, max_width as nat),
        r.1 == cells(v@.take(r.0 as int)),
        r.1 <= max_width,
        r.0 <= v@.len(),
{
    let mut width: usize = 0;
    let mut i: usize = 0;
    while i < v.len()
        invariant
            i <= v@.len(),
            width == cells(v@.take(i as int)),
            width <= max_width,
            fit_count(v@, max_width as nat) >= i,
        decreases v.len() - i,
    {
        let cw = get_character_cell_size(v[i]);
        proof {
            lemma_take_push(v@, i as int);
            lemma_fit_count_step(v@, max_width as nat, i as int, width as nat);
        }
        if cw > max_width - width {
            return (i, width);
        }
        width = width + cw;
        i += 1;
        proof {
            lemma_fit_count(v@, max_width as nat);
        }
    }
    proof {
        lemma_fit_count(v@, max_width as nat);
    }
    (i, width)
}

/// Truncate or pad a string to exactly `total` cells.
///
/// Shorter strings are padded with spaces; longer strings keep the characters
/// that fit (see `fit_count`) and are padded with spaces when a wide character
/// did not fit.
pub fn set_cell_size(text: &str, total: usize) -> (r: String)
    requires
        cells(text@) <= usize::MAX,
    ensures
        r@ == set_cell_size_spec(text@, total as nat),
        cells(r@) == total,
{
    let sp = get_character_cell_size(' ');
    assert((' ' as u32) == 32);
    assert(sp == 1);
    let v = chars_of(text);
    let current = cells_of(&v);
    if current == total {
        return owned(text);
    }
    if current < total {
        let mut s = owned(text);
        push_repeat(&mut s, ' ', total - current);
        proof {
            lemma_cells_repeat(' ', (total - current) as nat);
            lemma_cells_concat(text@, spaces((total - current) as nat));
        }
        return s;
    }
    let (n, width) = fit_prefix(&v, total);
    let mut s = string_from_range(&v, 0, n);
    assert(v@.subrange(0, n as int) == v@.take(n as int));
    push_repeat(&mut s, ' ', total - width);
    proof {
        lemma_cells_repeat(' ', (total - width) as nat);
        lemma_cells_concat(v@.take(n as int), spaces((total - width) as nat));
    }
    s
}

/// What `set_cell_size` returns.
pub open spec fn set_cell_size_spec(s: Seq<char>, total: nat) -> Seq<char> {
    if cells(s) == total {
        s
    } else if cells(s) < total {
        s + spaces((total - cells(s)) as nat)
    } else {
        let k = fit_count(s, total);
        s.take(k as int) + spaces((total - cells(s.take(k as int))) as nat)
    }
}

/// A run of one-cell characters is as wide as it is long.
pub proof fn lemma_cells_repeat(c: char, n: nat)
    requires
        char_cells(c) == 1,
    ensures
        cells(repeat_spec(c, n)) == n,
    decreases n,
{
    if n > 0 {
        assert(repeat_spec(c, n).drop_last() =~= repeat_spec(c, (n - 1) as nat));
        lemma_cells_repeat(c, (n - 1) as nat);
    }
}

/// Number of bytes of the UTF-8 encoding of `c` (`char::len_utf8`).
pub fn char_utf8_len(c: char) -> (n: usize)
    ensures
        n == utf8_len(c),
{
    let v = c as u32;
    if v < 0x80 {
        1
    } else if v < 0x800 {
        2
    } else if v < 0x10000 {
        3
    } else {
        4
    }
}

/// Split a string at a cell position.
///
/// The left part holds the characters kept by truncation to `max_size` cells
/// (see `fit_count`), the right part the rest.
pub fn chop_cells(text: &str, max_size: usize) -> (r: (&str, &str))
    ensures
        r.0@ == text@.take(fit_count(text@, max_size as nat) as int),
        r.1@ == text@.skip(fit_count(text@, max_size as nat) as int),
        cells(r.0@) <= max_size,
{
    let v = chars_of(text);
    let (n, _w) = fit_prefix(&v, max_size);
    let len = v.len();
    let left = text.substring_char(0, n);
    let right = text.substring_char(n, len);
    assert(text@.subrange(0, n as int) == text@.take(n as int));
    assert(text@.subrange(n as int, len as int) == text@.skip(n as int));
    (left, right)
}

/// Get the (byte index, cell position) of each character of a string.
pub fn cell_positions(text: &str) -> (r: Vec<(usize, usize)>)
    requires
        cells(text@) <= usize::MAX,
        byte_len(text@) <= usize::MAX,
    ensures
        r@.len() == text@.len(),
        forall|i: int|
            0 <= i < text@.len() ==> #[trigger] r@[i] == (
                byte_len(text@.take(i)) as usize,
                cells(text@.take(i)) as usize,
            ),
{
    let v = chars_of(text);
    let mut positions: Vec<(usize, usize)> = Vec::new();
    let mut cell_pos: usize = 0;
    let mut byte_idx: usize = 0;
    let mut i: usize = 0;
    while i < v.len()
        invariant
            i <= v@.len(),
            v@ == text@,
            positions@.len() == i,
            cell_pos == cells(v@.take(i as int)),
            byte_idx == byte_len(v@.take(i as int)),
            cells(text@) <= usize::MAX,
            byte_len(text@) <= usize::MAX,
            forall|j: int|
                0 <= j < i ==> #[trigger] positions@[j] == (
                    byte_len(text@.take(j)) as usize,
                    cells(text@.take(j)) as usize,
                ),
        decreases v.len() - i,
    {
        proof {
            lemma_take_push(v@, i as int);
            lemma_cells_prefix(v@, i + 1);
            lemma_byte_len_prefix(v@, i + 1);
        }
        positions.push((byte_idx, cell_pos));
        cell_pos = cell_pos + get_character_cell_size(v[i]);
        byte_idx = byte_idx + char_utf8_len(v[i]);
        i += 1;
    }
    positions
}

/// The first character index whose preceding width reaches `pos`, scanning from `i`.
pub open spec fn reach_index(s: Seq<char>, pos: nat, i: nat) -> Option<nat>
    decreases s.len() - i,
{
    if cells(s.take(i as int)) >= pos {
        Some(i)
    } else if i >= s.len() {
        None
    } else {
        reach_index(s, pos, i + 1)
    }
}

/// Find the byte index for a given cell position: the byte offset of the first
/// character boundary whose preceding width reaches `cell_pos`, or `None` when
/// the whole string is narrower.
pub fn cell_to_byte_index(text: &str, cell_pos: usize) -> (r: Option<usize>)
    requires
        cells(text@) <= usize::MAX,
        byte_len(text@) <= usize::MAX,
    ensures
        r == (match reach_index(text@, cell_pos as nat, 0) {
            Some(k) => Some(byte_len(text@.take(k as int)) as usize),
            None => None,
        }),
{
    let v = chars_of(text);
    let mut current_cell: usize = 0;
    let mut byte_idx: usize = 0;
    let mut i: usize = 0;
    while i < v.len()
        invariant
            i <= v@.len(),
            v@ == text@,
            current_cell == cells(v@.take(i as int)),
            byte_idx == byte_len(v@.take(i as int)),
            cells(text@) <= usize::MAX,
            byte_len(text@) <= usize::MAX,
            reach_index(text@, cell_pos as nat, 0) == reach_index(text@, cell_pos as nat, i as nat),
        decreases v.len() - i,
    {
        if current_cell >= cell_pos {
            return Some(byte_idx);
        }
        proof {
            lemma_take_push(v@, i as int);
            lemma_cells_prefix(v@, i + 1);
            lemma_byte_len_prefix(v@, i + 1);
        }
        current_cell = current_cell + get_character_cell_size(v[i]);
        byte_idx = byte_idx + char_utf8_len(v[i]);
        i += 1;
    }
    assert(v@.take(i as int) =~= v@);
    if current_cell >= cell_pos {
        Some(byte_idx)
    } else {
        None
    }
}

/// Check if a string contains any wide (more than one cell) characters.
pub fn has_wide_chars(text: &str) -> (r: bool)
    ensures
        r == exists|i: int| 0 <= i < text@.len() && char_cells(#[trigger] text@[i]) > 1,
{
    let v = chars_of(text);
    let mut i: usize = 0;
    while i < v.len()
        invariant
            i <= v@.len(),
            v@ == text@,
            forall|j: int| 0 <= j < i ==> char_cells(#[trigger] text@[j]) <= 1,
        decreases v.len() - i,
    {
        if get_character_cell_size(v[i]) > 1 {
            return true;
        }
        i += 1;
    }
    false
}

/// The cell width of a string, or `usize::MAX` where it is wider.
pub fn cell_len_saturating(text: &str) -> (w: usize)
    ensures
        w == if cells(text@) <= usize::MAX { cells(text@) } else { usize::MAX as nat },
{
    let v = chars_of(text);
    let mut total: usize = 0;
    let mut i: usize = 0;
    while i < v.len()
        invariant
            i <= v@.len(),
            v@ == text@,
            total == if cells(v@.take(i as int)) <= usize::MAX { cells(v@.take(i as int)) } else { usize::MAX as nat },
        decreases v.len() - i,
    {
        proof {
            lemma_take_push(v@, i as int);
        }
        let w = get_character_cell_size(v[i]);
        total = if total <= usize::MAX - w { total + w } else { usize::MAX };
        i += 1;
    }
    assert(v@.take(v@.len() as int) =~= v@);
    total
}

} // verus!
