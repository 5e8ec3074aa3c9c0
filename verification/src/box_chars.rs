//! Box drawing characters for tables and panels.
use vstd::prelude::*;
use crate::strings::{std_lowercase, to_lowercase};
use crate::text_ops::{chars_eq_str, chars_of, push_char, push_repeat, repeat_spec};

verus! {

/// Which row of a box a line is drawn from.
#[derive(Debug, Clone, Copy, PartialEq, Eq, Structural)]
pub enum RowLevel {
    /// The top edge.
    Top,
    /// The separator below the header.
    HeadRow,
    /// A separator between sections.
    Mid,
    /// A separator between rows.
    Row,
    /// The separator above the footer.
    FootRow,
    /// The bottom edge.
    Bottom,
}

/// A set of box drawing characters: for each kind of line, the left edge,
/// the horizontal fill, the column divider and the right edge.
#[derive(Debug, Clone, Copy, PartialEq, Eq)]
pub struct BoxChars {
    /// Top edge.
    pub top: [char; 4],
    /// Header row.
    pub head: [char; 4],
    /// Separator below the header.
    pub head_row: [char; 4],
    /// Separator between sections.
    pub mid: [char; 4],
    /// Separator between rows.
    pub row: [char; 4],
    /// Separator above the footer.
    pub foot_row: [char; 4],
    /// Footer row.
    pub foot: [char; 4],
    /// Bottom edge.
    pub bottom: [char; 4],
    /// Whether only ASCII characters are used.
    pub ascii: bool,
}

/// The characters used for a row level.
pub open spec fn row_chars_spec(b: BoxChars, level: RowLevel) -> [char; 4] {
    match level {
        RowLevel::Top => b.top,
        RowLevel::HeadRow => b.head_row,
        RowLevel::Mid => b.mid,
        RowLevel::Row => b.row,
        RowLevel::FootRow => b.foot_row,
        RowLevel::Bottom => b.bottom,
    }
}

/// The characters a row draws after column `i`: a divider between columns, and after
/// the last column the right edge when edges are drawn and it is not a space.
pub open spec fn row_after(chars: [char; 4], n: nat, i: nat, edge: bool) -> Seq<char> {
    if i + 1 < n {
        seq![chars[2]]
    } else if edge && chars[3] != ' ' {
        seq![chars[3]]
    } else {
        Seq::empty()
    }
}

/// The first `k` columns of a row.
pub open spec fn row_columns(chars: [char; 4], widths: Seq<usize>, k: nat, edge: bool) -> Seq<char>
    decreases k,
{
    if k == 0 {
        Seq::empty()
    } else {
        row_columns(chars, widths, (k - 1) as nat, edge) + repeat_spec(chars[1], widths[k - 1] as nat)
            + row_after(chars, widths.len(), (k - 1) as nat, edge)
    }
}

/// A whole row: the left edge (when edges are drawn and it is not a space), then each
/// column filled to its width followed by a divider or the right edge.
pub open spec fn build_row_spec(chars: [char; 4], widths: Seq<usize>, edge: bool) -> Seq<char> {
    (if edge && chars[0] != ' ' { seq![chars[0]] } else { Seq::empty() }) + row_columns(
        chars,
        widths,
        widths.len(),
        edge,
    )
}

impl BoxChars {
    /// Create a box style from its eight rows of characters.
    pub fn new(
        top: [char; 4],
        head: [char; 4],
        head_row: [char; 4],
        mid: [char; 4],
        row: [char; 4],
        foot_row: [char; 4],
        foot: [char; 4],
        bottom: [char; 4],
        ascii: bool,
    ) -> (b: Self)
        ensures
            b == (BoxChars { top, head, head_row, mid, row, foot_row, foot, bottom, ascii }),
    {
        BoxChars { top, head, head_row, mid, row, foot_row, foot, bottom, ascii }
    }

    /// The characters used for a row level.
    pub fn get_row_chars(&self, level: RowLevel) -> (r: &[char; 4])
        ensures
            *r == row_chars_spec(*self, level),
    {
        match level {
            RowLevel::Top => &self.top,
            RowLevel::HeadRow => &self.head_row,
            RowLevel::Mid => &self.mid,
            RowLevel::Row => &self.row,
            RowLevel::FootRow => &self.foot_row,
            RowLevel::Bottom => &self.bottom,
        }
    }

    /// Build a horizontal line for the given column widths.
    pub fn build_row(&self, widths: &[usize], level: RowLevel, edge: bool) -> (s: String)
        ensures
            s@ == build_row_spec(row_chars_spec(*self, level), widths@, edge),
    {
        let chars = self.get_row_chars(level);
        let left = chars[0];
        let middle = chars[1];
        let cross = chars[2];
        let right = chars[3];
        let mut result = String::new();
        if edge && left != ' ' {
            push_char(&mut result, left);
        }
        let ghost head = result@;
        let mut i: usize = 0;
        while i < widths.len()
            invariant
                i <= widths@.len(),
                *chars == row_chars_spec(*self, level),
                left == chars[0],
                middle == chars[1],
                cross == chars[2],
                right == chars[3],
                head == (if edge && chars[0] != ' ' { seq![chars[0]] } else { Seq::<char>::empty() }),
                result@ == head + row_columns(*chars, widths@, i as nat, edge),
            decreases widths.len() - i,
        {
            push_repeat(&mut result, middle, widths[i]);
            if i + 1 < widths.len() {
                push_char(&mut result, cross);
            } else if edge && right != ' ' {
                push_char(&mut result, right);
            }
            proof {
                let prev = row_columns(*chars, widths@, i as nat, edge);
                assert(row_columns(*chars, widths@, (i + 1) as nat, edge) == prev + repeat_spec(
                    chars[1],
                    widths@[i as int] as nat,
                ) + row_after(*chars, widths@.len(), i as nat, edge));
            }
            i += 1;
        }
        result
    }

    /// The top edge for the given column widths.
    pub fn get_top(&self, widths: &[usize]) -> (s: String)
        ensures
            s@ == build_row_spec(self.top, widths@, true),
    {
        self.build_row(widths, RowLevel::Top, true)
    }

    /// The bottom edge for the given column widths.
    pub fn get_bottom(&self, widths: &[usize]) -> (s: String)
        ensures
            s@ == build_row_spec(self.bottom, widths@, true),
    {
        self.build_row(widths, RowLevel::Bottom, true)
    }

    /// The separator below the header.
    pub fn get_head_row(&self, widths: &[usize]) -> (s: String)
        ensures
            s@ == build_row_spec(self.head_row, widths@, true),
    {
        self.build_row(widths, RowLevel::HeadRow, true)
    }

    /// The separator between sections.
    pub fn get_mid(&self, widths: &[usize]) -> (s: String)
        ensures
            s@ == build_row_spec(self.mid, widths@, true),
    {
        self.build_row(widths, RowLevel::Mid, true)
    }

    /// The separator between rows.
    pub fn get_row(&self, widths: &[usize]) -> (s: String)
        ensures
            s@ == build_row_spec(self.row, widths@, true),
    {
        self.build_row(widths, RowLevel::Row, true)
    }

    /// The left edge of a cell row.
    pub fn cell_left(&self) -> (c: char)
        ensures
            c == self.head[0],
    {
        self.head[0]
    }

    /// The divider between cells.
    pub fn cell_divider(&self) -> (c: char)
        ensures
            c == self.head[2],
    {
        self.head[2]
    }

    /// The right edge of a cell row.
    pub fn cell_right(&self) -> (c: char)
        ensures
            c == self.head[3],
    {
        self.head[3]
    }

    /// The box for ASCII-safe rendering: with `safe`, a box that is not ASCII
    /// is replaced by the ASCII box; otherwise the box itself.
    pub fn substitute(&self, safe: bool) -> (b: BoxChars)
        ensures
            b == if safe && !self.ascii { ascii_box_spec() } else { *self },
    {
        if safe && !self.ascii {
            ASCII()
        } else {
            *self
        }
    }
}

/// ASCII box with `+`, `-` and `|`.
#[allow(non_snake_case)]
pub fn ASCII() -> (b: BoxChars)
    ensures
        b == ascii_box_spec(),
{
    BoxChars::new(
        ['+', '-', '+', '+'],
        ['|', ' ', '|', '|'],
        ['|', '-', '+', '|'],
        ['|', '-', '+', '|'],
        ['|', '-', '+', '|'],
        ['|', '-', '+', '|'],
        ['|', ' ', '|', '|'],
        ['+', '-', '+', '+'],
        true,
    )
}

/// ASCII box whose separators use `+` at the edges.
#[allow(non_snake_case)]
pub fn ASCII2() -> (b: BoxChars)
    ensures
        b == ascii2_box_spec(),
{
    BoxChars::new(
        ['+', '-', '+', '+'],
        ['|', ' ', '|', '|'],
        ['+', '-', '+', '+'],
        ['+', '-', '+', '+'],
        ['+', '-', '+', '+'],
        ['+', '-', '+', '+'],
        ['|', ' ', '|', '|'],
        ['+', '-', '+', '+'],
        true,
    )
}

/// ASCII box with a double line below the header.
#[allow(non_snake_case)]
pub fn ASCII_DOUBLE_HEAD() -> (b: BoxChars)
    ensures
        b == ascii_double_head_box_spec(),
        b.head_row == ['+', '=', '+', '+'],
{
    BoxChars::new(
        ['+', '-', '+', '+'],
        ['|', ' ', '|', '|'],
        ['+', '=', '+', '+'],
        ['|', '-', '+', '|'],
        ['|', '-', '+', '|'],
        ['|', '-', '+', '|'],
        ['|', ' ', '|', '|'],
        ['+', '-', '+', '+'],
        true,
    )
}

/// Box with rounded corners.
#[allow(non_snake_case)]
pub fn ROUNDED() -> (b: BoxChars)
    ensures
        !b.ascii,
        b.top == ['\u{256D}', '\u{2500}', '\u{252C}', '\u{256E}'],
        b.head == ['\u{2502}', ' ', '\u{2502}', '\u{2502}'],
        b.bottom == ['\u{2570}', '\u{2500}', '\u{2534}', '\u{256F}'],
{
    BoxChars::new(
        ['\u{256D}', '\u{2500}', '\u{252C}', '\u{256E}'],
        ['\u{2502}', ' ', '\u{2502}', '\u{2502}'],
        ['\u{251C}', '\u{2500}', '\u{253C}', '\u{2524}'],
        ['\u{251C}', '\u{2500}', '\u{253C}', '\u{2524}'],
        ['\u{251C}', '\u{2500}', '\u{253C}', '\u{2524}'],
        ['\u{251C}', '\u{2500}', '\u{253C}', '\u{2524}'],
        ['\u{2502}', ' ', '\u{2502}', '\u{2502}'],
        ['\u{2570}', '\u{2500}', '\u{2534}', '\u{256F}'],
        false,
    )
}

/// Box with square corners.
#[allow(non_snake_case)]
pub fn SQUARE() -> (b: BoxChars)
    ensures
        !b.ascii,
        b.top == ['\u{250C}', '\u{2500}', '\u{252C}', '\u{2510}'],
        b.head == ['\u{2502}', ' ', '\u{2502}', '\u{2502}'],
        b.head_row == ['\u{251C}', '\u{2500}', '\u{253C}', '\u{2524}'],
        b.bottom == ['\u{2514}', '\u{2500}', '\u{2534}', '\u{2518}'],
{
    BoxChars::new(
        ['\u{250C}', '\u{2500}', '\u{252C}', '\u{2510}'],
        ['\u{2502}', ' ', '\u{2502}', '\u{2502}'],
        ['\u{251C}', '\u{2500}', '\u{253C}', '\u{2524}'],
        ['\u{251C}', '\u{2500}', '\u{253C}', '\u{2524}'],
        ['\u{251C}', '\u{2500}', '\u{253C}', '\u{2524}'],
        ['\u{251C}', '\u{2500}', '\u{253C}', '\u{2524}'],
        ['\u{2502}', ' ', '\u{2502}', '\u{2502}'],
        ['\u{2514}', '\u{2500}', '\u{2534}', '\u{2518}'],
        false,
    )
}

/// Box drawn with double lines.
#[allow(non_snake_case)]
pub fn DOUBLE() -> (b: BoxChars)
    ensures
        !b.ascii,
        b.top == ['\u{2554}', '\u{2550}', '\u{2566}', '\u{2557}'],
{
    BoxChars::new(
        ['\u{2554}', '\u{2550}', '\u{2566}', '\u{2557}'],
        ['\u{2551}', ' ', '\u{2551}', '\u{2551}'],
        ['\u{2560}', '\u{2550}', '\u{256C}', '\u{2563}'],
        ['\u{2560}', '\u{2550}', '\u{256C}', '\u{2563}'],
        ['\u{2560}', '\u{2550}', '\u{256C}', '\u{2563}'],
        ['\u{2560}', '\u{2550}', '\u{256C}', '\u{2563}'],
        ['\u{2551}', ' ', '\u{2551}', '\u{2551}'],
        ['\u{255A}', '\u{2550}', '\u{2569}', '\u{255D}'],
        false,
    )
}

/// Box drawn with heavy lines.
#[allow(non_snake_case)]
pub fn HEAVY() -> (b: BoxChars)
    ensures
        !b.ascii,
        b.top == ['\u{250F}', '\u{2501}', '\u{2533}', '\u{2513}'],
{
    BoxChars::new(
        ['\u{250F}', '\u{2501}', '\u{2533}', '\u{2513}'],
        ['\u{2503}', ' ', '\u{2503}', '\u{2503}'],
        ['\u{2523}', '\u{2501}', '\u{254B}', '\u{252B}'],
        ['\u{2523}', '\u{2501}', '\u{254B}', '\u{252B}'],
        ['\u{2523}', '\u{2501}', '\u{254B}', '\u{252B}'],
        ['\u{2523}', '\u{2501}', '\u{254B}', '\u{252B}'],
        ['\u{2503}', ' ', '\u{2503}', '\u{2503}'],
        ['\u{2517}', '\u{2501}', '\u{253B}', '\u{251B}'],
        false,
    )
}

/// Box with a heavy header and light body.
#[allow(non_snake_case)]
pub fn HEAVY_HEAD() -> (b: BoxChars)
    ensures
        !b.ascii,
        b.top == ['\u{250F}', '\u{2501}', '\u{2533}', '\u{2513}'],
        b.head_row == ['\u{2521}', '\u{2501}', '\u{2547}', '\u{2529}'],
{
    BoxChars::new(
        ['\u{250F}', '\u{2501}', '\u{2533}', '\u{2513}'],
        ['\u{2503}', ' ', '\u{2503}', '\u{2503}'],
        ['\u{2521}', '\u{2501}', '\u{2547}', '\u{2529}'],
        ['\u{251C}', '\u{2500}', '\u{253C}', '\u{2524}'],
        ['\u{251C}', '\u{2500}', '\u{253C}', '\u{2524}'],
        ['\u{251C}', '\u{2500}', '\u{253C}', '\u{2524}'],
        ['\u{2502}', ' ', '\u{2502}', '\u{2502}'],
        ['\u{2514}', '\u{2500}', '\u{2534}', '\u{2518}'],
        false,
    )
}

/// Minimal box: only column dividers and a header separator.
#[allow(non_snake_case)]
pub fn MINIMAL() -> (b: BoxChars)
    ensures
        !b.ascii,
        b.top == [' ', ' ', ' ', ' '],
{
    BoxChars::new(
        [' ', ' ', ' ', ' '],
        [' ', ' ', '\u{2502}', ' '],
        [' ', '\u{2500}', '\u{253C}', ' '],
        [' ', ' ', ' ', ' '],
        [' ', ' ', ' ', ' '],
        [' ', ' ', ' ', ' '],
        [' ', ' ', '\u{2502}', ' '],
        [' ', ' ', ' ', ' '],
        false,
    )
}

/// Simple box: horizontal lines only.
#[allow(non_snake_case)]
pub fn SIMPLE() -> (b: BoxChars)
    ensures
        !b.ascii,
        b.head_row == [' ', '\u{2500}', '\u{2500}', ' '],
{
    BoxChars::new(
        [' ', ' ', ' ', ' '],
        [' ', ' ', ' ', ' '],
        [' ', '\u{2500}', '\u{2500}', ' '],
        [' ', ' ', ' ', ' '],
        [' ', ' ', ' ', ' '],
        [' ', '\u{2500}', '\u{2500}', ' '],
        [' ', ' ', ' ', ' '],
        [' ', ' ', ' ', ' '],
        false,
    )
}

/// Simple box with heavy horizontal lines.
#[allow(non_snake_case)]
pub fn SIMPLE_HEAVY() -> (b: BoxChars)
    ensures
        !b.ascii,
        b.head_row == [' ', '\u{2501}', '\u{2501}', ' '],
{
    BoxChars::new(
        [' ', ' ', ' ', ' '],
        [' ', ' ', ' ', ' '],
        [' ', '\u{2501}', '\u{2501}', ' '],
        [' ', ' ', ' ', ' '],
        [' ', ' ', ' ', ' '],
        [' ', '\u{2501}', '\u{2501}', ' '],
        [' ', ' ', ' ', ' '],
        [' ', ' ', ' ', ' '],
        false,
    )
}

/// The index of a box style name among the known names (already lowercased).
pub open spec fn box_name_index(name: Seq<char>) -> Option<nat> {
    if name == "ascii"@ { Some(0) }
    else if name == "ascii2"@ { Some(1) }
    else if name == "ascii_double_head"@ { Some(2) }
    else if name == "rounded"@ { Some(3) }
    else if name == "square"@ { Some(4) }
    else if name == "double"@ { Some(5) }
    else if name == "heavy"@ { Some(6) }
    else if name == "heavy_head"@ { Some(7) }
    else if name == "minimal"@ { Some(8) }
    else if name == "simple"@ { Some(9) }
    else if name == "simple_heavy"@ { Some(10) }
    else { None }
}

/// The box style with index `i` in the list of known names.
pub fn box_by_index(i: usize) -> (b: BoxChars)
    requires
        i <= 10,
    ensures
        i == 0 ==> b == ascii_box_spec(),
        i == 1 ==> b == ascii2_box_spec(),
        i == 2 ==> b == ascii_double_head_box_spec(),
        i <= 2 ==> b.ascii,
        i > 2 ==> !b.ascii,
{
    match i {
        0 => ASCII(),
        1 => ASCII2(),
        2 => ASCII_DOUBLE_HEAD(),
        3 => ROUNDED(),
        4 => SQUARE(),
        5 => DOUBLE(),
        6 => HEAVY(),
        7 => HEAVY_HEAD(),
        8 => MINIMAL(),
        9 => SIMPLE(),
        _ => SIMPLE_HEAVY(),
    }
}

/// The characters of the ASCII box.
pub open spec fn ascii_box_spec() -> BoxChars {
    BoxChars {
        top: ['+', '-', '+', '+'],
        head: ['|', ' ', '|', '|'],
        head_row: ['|', '-', '+', '|'],
        mid: ['|', '-', '+', '|'],
        row: ['|', '-', '+', '|'],
        foot_row: ['|', '-', '+', '|'],
        foot: ['|', ' ', '|', '|'],
        bottom: ['+', '-', '+', '+'],
        ascii: true,
    }
}

/// The characters of the ASCII box with `+` at the separators' edges.
pub open spec fn ascii2_box_spec() -> BoxChars {
    BoxChars {
        top: ['+', '-', '+', '+'],
        head: ['|', ' ', '|', '|'],
        head_row: ['+', '-', '+', '+'],
        mid: ['+', '-', '+', '+'],
        row: ['+', '-', '+', '+'],
        foot_row: ['+', '-', '+', '+'],
        foot: ['|', ' ', '|', '|'],
        bottom: ['+', '-', '+', '+'],
        ascii: true,
    }
}

/// The characters of the ASCII box with a double line below the header.
pub open spec fn ascii_double_head_box_spec() -> BoxChars {
    BoxChars {
        top: ['+', '-', '+', '+'],
        head: ['|', ' ', '|', '|'],
        head_row: ['+', '=', '+', '+'],
        mid: ['|', '-', '+', '|'],
        row: ['|', '-', '+', '|'],
        foot_row: ['|', '-', '+', '|'],
        foot: ['|', ' ', '|', '|'],
        bottom: ['+', '-', '+', '+'],
        ascii: true,
    }
}

/// The ASCII-safe box of a known box index: the ASCII boxes themselves, the
/// plain ASCII box for every other.
pub open spec fn safe_box_of(k: nat) -> BoxChars {
    if k == 1 {
        ascii2_box_spec()
    } else if k == 2 {
        ascii_double_head_box_spec()
    } else {
        ascii_box_spec()
    }
}

/// The index of a lowercased box name among the known names.
fn lookup_box_name(v: &Vec<char>) -> (r: Option<usize>)
    ensures
        r == (match box_name_index(v@) {
            Some(k) => Some(k as usize),
            None => None,
        }),
{
    if chars_eq_str(v, "ascii") { Some(0) }
    else if chars_eq_str(v, "ascii2") { Some(1) }
    else if chars_eq_str(v, "ascii_double_head") { Some(2) }
    else if chars_eq_str(v, "rounded") { Some(3) }
    else if chars_eq_str(v, "square") { Some(4) }
    else if chars_eq_str(v, "double") { Some(5) }
    else if chars_eq_str(v, "heavy") { Some(6) }
    else if chars_eq_str(v, "heavy_head") { Some(7) }
    else if chars_eq_str(v, "minimal") { Some(8) }
    else if chars_eq_str(v, "simple") { Some(9) }
    else if chars_eq_str(v, "simple_heavy") { Some(10) }
    else { None }
}

/// Get a box style by name, ignoring case.
pub fn get_box(name: &str) -> (r: Option<BoxChars>)
    ensures
        r is Some <==> box_name_index(std_lowercase(name@)) is Some,
        (box_name_index(std_lowercase(name@)) matches Some(k) && k <= 2) ==> r == Some(
            safe_box_of(box_name_index(std_lowercase(name@))->0),
        ),
        r matches Some(b) ==> (b.ascii <==> box_name_index(std_lowercase(name@))->0 <= 2),
{
    let lower = to_lowercase(name);
    let v = chars_of(lower.as_str());
    match lookup_box_name(&v) {
        Some(i) => Some(box_by_index(i)),
        None => None,
    }
}

/// Get an ASCII-safe box style by name: the named box when it uses only ASCII,
/// otherwise the ASCII box (unknown names fall back to the square box, which is
/// not ASCII, and so to the ASCII box).
pub fn get_safe_box(name: &str) -> (b: BoxChars)
    ensures
        b.ascii,
        b == match box_name_index(std_lowercase(name@)) {
            Some(k) => safe_box_of(k),
            None => ascii_box_spec(),
        },
{
    let box_style = match get_box(name) {
        Some(b) => b,
        None => SQUARE(),
    };
    if box_style.ascii {
        box_style
    } else {
        ASCII()
    }
}

/// Law: box names ignore letter case: two ASCII names that differ only in
/// case name the same box (`get_box` and `get_safe_box` go by this index).
pub proof fn law_box_name_ignores_case(a: Seq<char>, b: Seq<char>)
    requires
        crate::strings::all_ascii(a),
        crate::strings::all_ascii(b),
        crate::strings::ascii_lowercased(a) == crate::strings::ascii_lowercased(b),
    ensures
        box_name_index(std_lowercase(a)) == box_name_index(std_lowercase(b)),
{
}

} // verus!
