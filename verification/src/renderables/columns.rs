//! Columns - arrange items in a newspaper-style multi-column layout.
//!
//! Items go into rows left to right; each column is as wide as its widest
//! item (or all columns equally wide), within the width available after the
//! gutters.
use vstd::prelude::*;
use crate::cells::{cell_len, cells};
use crate::renderables::panel::{flatten, text_cells};
use crate::segment::{copy_line, line_cells, line_length, lines_model, pad_seg, plain_model, push_segs, segs_model, spaces_segment, Segment, SegmentModel};
use crate::style::{Style, StyleModel};

verus! {

/// How an item is placed within its column.
#[derive(Debug, Clone, Copy, PartialEq, Eq, Structural)]
pub enum AlignMethod {
    /// Flush left.
    Left,
    /// Centered.
    Center,
    /// Flush right.
    Right,
}

/// A renderable that arranges items in columns.
#[derive(Debug)]
pub struct Columns {
    /// Items to arrange (each item is one line of segments).
    pub items: Vec<Vec<Segment>>,
    /// Number of columns (None = chosen from the content width).
    pub column_count: Option<usize>,
    /// Space between columns.
    pub gutter: usize,
    /// Whether to expand columns to fill available width.
    pub expand: bool,
    /// Whether columns should have equal width.
    pub equal_width: bool,
    /// Alignment within each column.
    pub align: AlignMethod,
    /// Padding around each item.
    pub padding: usize,
    /// Style for the gutters.
    pub gutter_style: Style,
}

/// The value of a columns layout.
pub struct ColumnsModel {
    pub items: Seq<Seq<SegmentModel>>,
    pub column_count: Option<usize>,
    pub gutter: usize,
    pub expand: bool,
    pub equal_width: bool,
    pub align: AlignMethod,
    pub padding: usize,
    pub gutter_style: StyleModel,
}

impl View for Columns {
    type V = ColumnsModel;

    open spec fn view(&self) -> ColumnsModel {
        ColumnsModel {
            items: lines_model(self.items@),
            column_count: self.column_count,
            gutter: self.gutter,
            expand: self.expand,
            equal_width: self.equal_width,
            align: self.align,
            padding: self.padding,
            gutter_style: self.gutter_style@,
        }
    }
}

/// A new layout's settings for the given items: column count chosen from the
/// content, a gutter of two cells, expanding, left-aligned, no padding.
pub open spec fn default_columns(items: Seq<Seq<SegmentModel>>) -> ColumnsModel {
    ColumnsModel {
        items,
        column_count: None,
        gutter: 2,
        expand: true,
        equal_width: false,
        align: AlignMethod::Left,
        padding: 0,
        gutter_style: crate::style::empty_style_model(false),
    }
}

impl Columns {
    /// Create a new Columns layout with the given items.
    pub fn new(items: Vec<Vec<Segment>>) -> (c: Self)
        ensures
            c@ == default_columns(lines_model(items@)),
    {
        Columns {
            items,
            column_count: None,
            gutter: 2,
            expand: true,
            equal_width: false,
            align: AlignMethod::Left,
            padding: 0,
            gutter_style: Style::new(),
        }
    }

    /// Create columns from strings, one unstyled segment per item.
    pub fn from_strings(items: &[&str]) -> (c: Self)
        ensures
            c@.items.len() == items@.len(),
            forall|i: int| 0 <= i < items@.len() ==> #[trigger] c@.items[i] == seq![plain_model(items@[i]@, None)],
            c@ == default_columns(c@.items),
    {
        let mut v: Vec<Vec<Segment>> = Vec::new();
        let mut i: usize = 0;
        while i < items.len()
            invariant
                i <= items@.len(),
                v@.len() == i,
                forall|k: int| 0 <= k < i ==> #[trigger] lines_model(v@)[k] == seq![plain_model(items@[k]@, None)],
            decreases items.len() - i,
        {
            let mut line: Vec<Segment> = Vec::new();
            line.push(Segment::new(items[i], None));
            assert(segs_model(line@) =~= seq![plain_model(items@[i as int]@, None)]);
            let ghost prev = v@;
            v.push(line);
            assert(lines_model(v@) =~= lines_model(prev).push(segs_model(line@)));
            i += 1;
        }
        Columns::new(v)
    }

    /// Set the number of columns.
    pub fn column_count(self, count: usize) -> (c: Self)
        ensures
            c@ == (ColumnsModel { column_count: Some(if count >= 1 { count } else { 1 }), ..self@ }),
    {
        Columns { column_count: Some(if count >= 1 { count } else { 1 }), ..self }
    }

    /// Set the gutter width.
    pub fn gutter(self, gutter: usize) -> (c: Self)
        ensures
            c@ == (ColumnsModel { gutter, ..self@ }),
    {
        Columns { gutter, ..self }
    }

    /// Set whether to expand to the available width.
    pub fn expand(self, expand: bool) -> (c: Self)
        ensures
            c@ == (ColumnsModel { expand, ..self@ }),
    {
        Columns { expand, ..self }
    }

    /// Set whether columns have equal width.
    pub fn equal_width(self, equal: bool) -> (c: Self)
        ensures
            c@ == (ColumnsModel { equal_width: equal, ..self@ }),
    {
        Columns { equal_width: equal, ..self }
    }

    /// Set the alignment within columns.
    pub fn align(self, align: AlignMethod) -> (c: Self)
        ensures
            c@ == (ColumnsModel { align, ..self@ }),
    {
        Columns { align, ..self }
    }

    /// Set the padding around each item.
    pub fn padding(self, padding: usize) -> (c: Self)
        ensures
            c@ == (ColumnsModel { padding, ..self@ }),
    {
        Columns { padding, ..self }
    }

    /// Set the gutter style.
    pub fn gutter_style(self, style: Style) -> (c: Self)
        ensures
            c@ == (ColumnsModel { gutter_style: style@, ..self@ }),
    {
        Columns { gutter_style: style, ..self }
    }

    /// The width of an item in cells: the widths of its segments' texts.
    pub fn item_width(item: &[Segment]) -> (w: usize)
        requires
            text_cells(segs_model(item@)) <= usize::MAX,
        ensures
            w == text_cells(segs_model(item@)),
    {
        let ghost m = segs_model(item@);
        let mut sum: usize = 0;
        let mut j: usize = 0;
        while j < item.len()
            invariant
                j <= item@.len(),
                m == segs_model(item@),
                text_cells(m) <= usize::MAX,
                sum == text_cells(m.take(j as int)),
            decreases item.len() - j,
        {
            proof {
                assert(m.take(j + 1).drop_last() =~= m.take(j as int));
                lemma_text_cells_prefix(m, j + 1);
                assert(m[j as int] == item@[j as int]@);
            }
            let w = cell_len(item[j].text.as_str());
            sum = sum + w;
            j += 1;
        }
        assert(m.take(m.len() as int) =~= m);
        sum
    }
}

/// The widths of a prefix's texts never exceed those of the whole line.
pub proof fn lemma_text_cells_prefix(l: Seq<SegmentModel>, i: int)
    requires
        0 <= i <= l.len(),
    ensures
        text_cells(l.take(i)) <= text_cells(l),
    decreases l.len() - i,
{
    if i < l.len() {
        lemma_text_cells_prefix(l, i + 1);
        assert(l.take(i + 1).drop_last() =~= l.take(i));
    } else {
        assert(l.take(i) =~= l);
    }
}

/// The width item `i` takes with its padding on both sides.
pub open spec fn padded_width(c: ColumnsModel, i: int) -> nat {
    text_cells(c.items[i]) + 2 * (c.padding as nat)
}

/// The widest padded item among the first `k` items that fall in column
/// `col` of `n`.
pub open spec fn col_max(c: ColumnsModel, n: nat, col: nat, k: nat) -> nat
    decreases k,
{
    if k == 0 || n == 0 {
        0
    } else {
        let prev = col_max(c, n, col, (k - 1) as nat);
        if (k - 1) % (n as int) == col && padded_width(c, k - 1) > prev { padded_width(c, k - 1) } else { prev }
    }
}

/// The sum of a sequence of numbers.
pub open spec fn sum_nat(s: Seq<nat>) -> nat
    decreases s.len(),
{
    if s.len() == 0 { 0 } else { sum_nat(s.drop_last()) + s.last() }
}

/// The cells left for columns after the gutters.
pub open spec fn columns_available(c: ColumnsModel, total: nat, n: nat) -> nat {
    let g = c.gutter * (n - 1);
    if total > g { (total - g) as nat } else { 0 }
}

/// The content widths of the columns: the widest padded item in each.
pub open spec fn base_widths(c: ColumnsModel, n: nat) -> Seq<nat> {
    Seq::new(n, |i: int| col_max(c, n, i as nat, c.items.len()))
}

/// The column widths for `n` columns within `total` cells: all equal to an
/// even share of the available cells, or each the widest item in it, grown
/// evenly (the first columns taking the remainder) when expanding, and never
/// above an even share.
pub open spec fn column_widths_spec(c: ColumnsModel, total: nat, n: nat) -> Seq<usize> {
    if n == 0 || c.items.len() == 0 {
        Seq::empty()
    } else {
        let available = columns_available(c, total, n);
        let share = available / n;
        if c.equal_width {
            Seq::new(n, |_i: int| share as usize)
        } else {
            let base = base_widths(c, n);
            let ct = sum_nat(base);
            let grown = if c.expand && ct < available {
                let extra = (available - ct) as nat;
                Seq::new(n, |i: int| base[i] + extra / n + if i < extra % n { 1nat } else { 0nat })
            } else {
                base
            };
            Seq::new(n, |i: int| if grown[i] < share { grown[i] as usize } else { share as usize })
        }
    }
}

/// The layouts whose widths the machine can count for `n` columns.
pub open spec fn widths_ok(c: ColumnsModel, n: nat) -> bool {
    &&& n > 0 ==> c.gutter * (n - 1) <= usize::MAX
    &&& forall|i: int| 0 <= i < c.items.len() ==> padded_width(c, i) <= usize::MAX
    &&& sum_nat(base_widths(c, n)) <= usize::MAX
}

/// The widest padded item of a column is one of its items' widths, or 0.
proof fn lemma_col_max_bound(c: ColumnsModel, n: nat, col: nat, k: nat)
    requires
        k <= c.items.len(),
        forall|i: int| 0 <= i < c.items.len() ==> padded_width(c, i) <= usize::MAX,
    ensures
        col_max(c, n, col, k) <= usize::MAX,
    decreases k,
{
    if k > 0 && n > 0 {
        lemma_col_max_bound(c, n, col, (k - 1) as nat);
    }
}

/// Each term of a sum is at most the sum.
proof fn lemma_sum_nat_element(s: Seq<nat>, i: int)
    requires
        0 <= i < s.len(),
    ensures
        s[i] <= sum_nat(s),
    decreases s.len(),
{
    if i < s.len() - 1 {
        lemma_sum_nat_element(s.drop_last(), i);
    }
}

/// A share of the extra cells and the remainder bit never exceed the extra cells.
proof fn lemma_share_bound(extra: nat, n: nat, i: int)
    requires
        n > 0,
        0 <= i,
    ensures
        extra / n + (if i < extra % n { 1nat } else { 0nat }) <= extra,
{
    let q = extra / n;
    let r = extra % n;
    assert(q * n + r == extra && r < n) by (nonlinear_arith)
        requires n > 0, q == extra / n, r == extra % n;
    assert(q <= extra) by (nonlinear_arith)
        requires n > 0, q * n + r == extra, r >= 0, q >= 0;
    if i < r {
        assert(q + 1 <= extra) by (nonlinear_arith)
            requires n > 0, q * n + r == extra, r >= 1, q >= 0;
    }
}

impl Columns {
    /// The column widths for `num_columns` columns within `total_width`
    /// cells (see `column_widths_spec`).
    pub fn calculate_column_widths(&self, total_width: usize, num_columns: usize) -> (r: Vec<usize>)
        requires
            widths_ok(self@, num_columns as nat),
        ensures
            r@ == column_widths_spec(self@, total_width as nat, num_columns as nat),
    {
        let ghost c = self@;
        let n = num_columns;
        if n == 0 || self.items.len() == 0 {
            return Vec::new();
        }
        let total_gutter = self.gutter * (n - 1);
        let available = if total_width > total_gutter { total_width - total_gutter } else { 0 };
        assert(available == columns_available(c, total_width as nat, n as nat));
        let share = available / n;
        let mut out: Vec<usize> = Vec::new();
        if self.equal_width {
            let mut i: usize = 0;
            while i < n
                invariant
                    i <= n,
                    out@ =~= Seq::new(i as nat, |_k: int| share),
                decreases n - i,
            {
                out.push(share);
                i += 1;
            }
            return out;
        }
        let ghost base = base_widths(c, n as nat);
        let mut widths: Vec<usize> = Vec::new();
        let mut col: usize = 0;
        while col < n
            invariant
                col <= n,
                c == self@,
                n > 0,
                widths_ok(c, n as nat),
                base == base_widths(c, n as nat),
                widths@.len() == col,
                forall|k: int| 0 <= k < col ==> widths@[k] == base[k],
            decreases n - col,
        {
            let mut best: usize = 0;
            let mut idx: usize = 0;
            while idx < self.items.len()
                invariant
                    idx <= self.items@.len(),
                    c == self@,
                    n > 0,
                    col < n,
                    widths_ok(c, n as nat),
                    best == col_max(c, n as nat, col as nat, idx as nat),
                decreases self.items.len() - idx,
            {
                proof {
                    lemma_col_max_bound(c, n as nat, col as nat, idx as nat);
                    assert(c.items[idx as int] == segs_model(self.items@[idx as int]@));
                    assert(padded_width(c, idx as int) <= usize::MAX);
                }
                if idx % n == col {
                    let w = Columns::item_width(self.items[idx].as_slice()) + self.padding * 2;
                    if w > best {
                        best = w;
                    }
                }
                idx += 1;
            }
            widths.push(best);
            col += 1;
        }
        assert(widths@.len() == base.len());
        let mut content_total: usize = 0;
        let mut k: usize = 0;
        while k < n
            invariant
                k <= n,
                widths@.len() == n,
                base.len() == n,
                forall|j: int| 0 <= j < n ==> widths@[j] == base[j],
                sum_nat(base) <= usize::MAX,
                content_total == sum_nat(base.take(k as int)),
            decreases n - k,
        {
            proof {
                assert(base.take(k + 1).drop_last() =~= base.take(k as int));
                lemma_sum_nat_prefix(base, k + 1);
            }
            content_total = content_total + widths[k];
            k += 1;
        }
        assert(base.take(n as int) =~= base);
        let grow = self.expand && content_total < available;
        let extra = if grow { available - content_total } else { 0 };
        let per = extra / n;
        let rem = extra % n;
        let mut i: usize = 0;
        while i < n
            invariant
                i <= n,
                n > 0,
                widths@.len() == n,
                base.len() == n,
                forall|j: int| 0 <= j < n ==> widths@[j] == base[j],
                content_total == sum_nat(base),
                grow ==> content_total + extra == available,
                !grow ==> extra == 0,
                per == extra / n,
                rem == extra % n,
                available <= usize::MAX,
                share == available / n,
                out@.len() == i,
                forall|j: int| 0 <= j < i ==> out@[j] == ({
                    let g: nat = if grow { base[j] + (per as nat) + if j < rem { 1nat } else { 0nat } } else { base[j] };
                    if g < share { g as usize } else { share as usize }
                }),
            decreases n - i,
        {
            proof {
                lemma_sum_nat_element(base, i as int);
                lemma_share_bound(extra as nat, n as nat, i as int);
            }
            let mut w = widths[i];
            if grow {
                w = w + per;
                if i < rem {
                    w = w + 1;
                }
            }
            let v = if w < share { w } else { share };
            out.push(v);
            i += 1;
        }
        assert(out@ =~= column_widths_spec(c, total_width as nat, n as nat));
        out
    }
}

/// A prefix sums to no more than the whole.
proof fn lemma_sum_nat_prefix(s: Seq<nat>, i: int)
    requires
        0 <= i <= s.len(),
    ensures
        sum_nat(s.take(i)) <= sum_nat(s),
    decreases s.len() - i,
{
    if i < s.len() {
        lemma_sum_nat_prefix(s, i + 1);
        assert(s.take(i + 1).drop_last() =~= s.take(i));
    } else {
        assert(s.take(i) =~= s);
    }
}

/// The widest padded item among the first `k`.
pub open spec fn max_padded(c: ColumnsModel, k: nat) -> nat
    decreases k,
{
    if k == 0 { 0 } else { let p = max_padded(c, (k - 1) as nat); if padded_width(c, k - 1) > p { padded_width(c, k - 1) } else { p } }
}

/// The first column count from `cols` up whose columns (each `min_w` wide,
/// with gutters) no longer fit in `total`, or the number of items.
pub open spec fn auto_from(c: ColumnsModel, total: nat, min_w: nat, cols: nat) -> nat
    decreases c.items.len() - cols,
{
    if cols >= c.items.len() || cols == 0 {
        cols
    } else if (cols + 1) * min_w + cols * c.gutter > total {
        cols
    } else {
        auto_from(c, total, min_w, cols + 1)
    }
}

/// The widest padded item, at least 1.
pub open spec fn min_column_width(c: ColumnsModel) -> nat {
    let m = max_padded(c, c.items.len());
    if m > 1 { m } else { 1 }
}

/// The column count chosen for `total` cells: one for no items; otherwise
/// the most columns, from one up to the number of items, that fit with their
/// gutters when each is as wide as the widest item (one where none fit).
pub open spec fn auto_count_spec(c: ColumnsModel, total: nat) -> nat {
    if c.items.len() == 0 { 1 } else { auto_from(c, total, min_column_width(c), 1) }
}

/// The layouts whose automatic column count the machine can compute.
pub open spec fn auto_ok(c: ColumnsModel) -> bool {
    &&& forall|i: int| 0 <= i < c.items.len() ==> padded_width(c, i) <= usize::MAX
    &&& c.items.len() * (min_column_width(c) + c.gutter) <= usize::MAX
}

/// The widest padded item is one of the padded widths, or 0.
proof fn lemma_max_padded_bound(c: ColumnsModel, k: nat)
    requires
        k <= c.items.len(),
        forall|i: int| 0 <= i < c.items.len() ==> padded_width(c, i) <= usize::MAX,
    ensures
        max_padded(c, k) <= usize::MAX,
    decreases k,
{
    if k > 0 {
        lemma_max_padded_bound(c, (k - 1) as nat);
    }
}

/// Counting up keeps the count between its start and the number of items.
proof fn lemma_auto_from_range(c: ColumnsModel, total: nat, min_w: nat, cols: nat)
    requires
        1 <= cols <= c.items.len(),
    ensures
        cols <= auto_from(c, total, min_w, cols) <= c.items.len(),
    decreases c.items.len() - cols,
{
    if cols < c.items.len() && (cols + 1) * min_w + cols * c.gutter <= total {
        lemma_auto_from_range(c, total, min_w, cols + 1);
    }
}

impl Columns {
    /// The column count chosen for `total_width` cells (see `auto_count_spec`).
    pub fn auto_column_count(&self, total_width: usize) -> (n: usize)
        requires
            auto_ok(self@),
        ensures
            n == auto_count_spec(self@, total_width as nat),
            n >= 1,
            self@.items.len() > 0 ==> n <= self@.items.len(),
    {
        let ghost c = self@;
        if self.items.len() == 0 {
            return 1;
        }
        let mut max_item: usize = 0;
        let mut k: usize = 0;
        while k < self.items.len()
            invariant
                k <= self.items@.len(),
                c == self@,
                auto_ok(c),
                max_item == max_padded(c, k as nat),
            decreases self.items.len() - k,
        {
            proof {
                lemma_max_padded_bound(c, k as nat);
                assert(c.items[k as int] == segs_model(self.items@[k as int]@));
                assert(padded_width(c, k as int) <= usize::MAX);
            }
            let w = Columns::item_width(self.items[k].as_slice()) + self.padding * 2;
            if w > max_item {
                max_item = w;
            }
            k += 1;
        }
        let min_w = if max_item > 1 { max_item } else { 1 };
        assert(min_w == min_column_width(c));
        let len = self.items.len();
        let mut columns: usize = 1;
        while columns < len
            invariant
                1 <= columns <= len,
                len == c.items.len(),
                c == self@,
                auto_ok(c),
                min_w == min_column_width(c),
                auto_from(c, total_width as nat, min_w as nat, columns as nat) == auto_from(c, total_width as nat, min_w as nat, 1),
            ensures
                columns == auto_from(c, total_width as nat, min_w as nat, 1),
                1 <= columns <= len,
            decreases len - columns,
        {
            proof {
                assert((columns + 1) * min_w + columns * self.gutter <= len * (min_w + self.gutter)) by (nonlinear_arith)
                    requires columns < len, columns >= 1;
            }
            let needed = (columns + 1) * min_w + columns * self.gutter;
            if needed > total_width {
                break;
            }
            columns += 1;
        }
        proof {
            lemma_auto_from_range(c, total_width as nat, min_w as nat, 1);
        }
        columns
    }
}

/// An item placed in `w` cells: padded with unstyled spaces on the right,
/// on both sides (the right side taking the odd cell) or on the left; an
/// item at least that wide is left as it is.
pub open spec fn align_spec(item: Seq<SegmentModel>, w: nat, m: AlignMethod) -> Seq<SegmentModel> {
    let c = line_cells(item);
    if c >= w {
        item
    } else {
        let gap = (w - c) as nat;
        match m {
            AlignMethod::Left => item.push(pad_seg(gap, None)),
            AlignMethod::Right => seq![pad_seg(gap, None)] + item,
            AlignMethod::Center => {
                let l = gap / 2;
                let r = (gap - l) as nat;
                (if l > 0 { seq![pad_seg(l, None)] } else { Seq::empty() }) + item
                    + (if r > 0 { seq![pad_seg(r, None)] } else { Seq::empty() })
            },
        }
    }
}

/// The padding around an item, where there is any.
pub open spec fn item_pad(p: usize) -> Seq<SegmentModel> {
    if p > 0 { seq![pad_seg(p as nat, None)] } else { Seq::empty() }
}

/// Cell `col` of row `row`: a gutter before all but the first column, then
/// the padded, aligned item, or blank space where there is no item.
pub open spec fn cell_spec(c: ColumnsModel, widths: Seq<usize>, n: nat, row: nat, col: int) -> Seq<SegmentModel> {
    let idx = row * n + col;
    let w = widths[col];
    (if col > 0 && c.gutter > 0 { seq![pad_seg(c.gutter as nat, Some(c.gutter_style))] } else { Seq::empty() })
        + if idx < c.items.len() {
            item_pad(c.padding) + align_spec(c.items[idx], if w > 2 * c.padding { (w - 2 * c.padding) as nat } else { 0 }, c.align)
                + item_pad(c.padding)
        } else {
            seq![pad_seg(w as nat, None)]
        }
}

/// The number of columns used for `total` cells.
pub open spec fn used_columns(c: ColumnsModel, total: nat) -> nat {
    match c.column_count { Some(n) => n as nat, None => auto_count_spec(c, total) }
}

/// The lines of a columns layout rendered within `total` cells: one line per
/// row of items, each the row's cells one after another.
pub open spec fn columns_render_spec(c: ColumnsModel, total: nat) -> Seq<Seq<SegmentModel>> {
    let n = used_columns(c, total);
    let widths = column_widths_spec(c, total, n);
    if c.items.len() == 0 || widths.len() == 0 {
        Seq::empty()
    } else {
        Seq::new(((c.items.len() + n - 1) / n as int) as nat, |r: int| flatten(Seq::new(n, |col: int| cell_spec(c, widths, n, r as nat, col))))
    }
}

/// The layouts the machine can render within `total` cells.
pub open spec fn render_ok(c: ColumnsModel, total: nat) -> bool {
    &&& c.column_count is None ==> auto_ok(c)
    &&& widths_ok(c, used_columns(c, total))
    &&& c.items.len() + used_columns(c, total) <= usize::MAX
    &&& 2 * c.padding <= usize::MAX
}

/// An item in `w` cells (see `align_spec`).
fn align_item(item: &Vec<Segment>, w: usize, m: AlignMethod) -> (r: Vec<Segment>)
    requires
        line_cells(segs_model(item@)) <= usize::MAX,
    ensures
        segs_model(r@) == align_spec(segs_model(item@), w as nat, m),
{
    let c = line_length(item.as_slice());
    let copy = copy_line(item);
    if c >= w {
        return copy;
    }
    let gap = w - c;
    let mut out: Vec<Segment> = Vec::new();
    match m {
        AlignMethod::Left => {
            out = copy;
            let ghost prev = out@;
            let sp = spaces_segment(gap, None);
            out.push(sp);
            assert(segs_model(out@) =~= segs_model(prev).push(sp@));
        },
        AlignMethod::Right => {
            let sp = spaces_segment(gap, None);
            out.push(sp);
            let ghost prev = out@;
            let ghost cv = copy@;
            let mut copy = copy;
            out.append(&mut copy);
            assert(segs_model(out@) =~= segs_model(prev) + segs_model(cv));
        },
        AlignMethod::Center => {
            let l = gap / 2;
            let r = gap - l;
            if l > 0 {
                out.push(spaces_segment(l, None));
            }
            let ghost prev = out@;
            let ghost cv = copy@;
            let mut copy = copy;
            out.append(&mut copy);
            assert(segs_model(out@) =~= segs_model(prev) + segs_model(cv));
            if r > 0 {
                let ghost prev2 = out@;
                let sp = spaces_segment(r, None);
                out.push(sp);
                assert(segs_model(out@) =~= segs_model(prev2).push(sp@));
            }
        },
    }
    assert(segs_model(out@) =~= align_spec(segs_model(item@), w as nat, m));
    out
}

/// A line's width counts no more than the widths of all its texts.
proof fn lemma_line_le_text(l: Seq<SegmentModel>)
    ensures
        line_cells(l) <= text_cells(l),
    decreases l.len(),
{
    if l.len() > 0 {
        lemma_line_le_text(l.drop_last());
    }
}

impl Columns {
    /// One cell of a row (see `cell_spec`).
    fn cell(&self, widths: &Vec<usize>, n: usize, row: usize, col: usize) -> (v: Vec<Segment>)
        requires
            col < n,
            n == widths@.len(),
            row * n + col <= usize::MAX,
            2 * self@.padding <= usize::MAX,
            forall|i: int| 0 <= i < self@.items.len() ==> padded_width(self@, i) <= usize::MAX,
        ensures
            segs_model(v@) == cell_spec(self@, widths@, n as nat, row as nat, col as int),
    {
        let ghost c = self@;
        let mut v: Vec<Segment> = Vec::new();
        if col > 0 && self.gutter > 0 {
            v.push(spaces_segment(self.gutter, Some(self.gutter_style.clone())));
        }
        let ghost head = segs_model(v@);
        let idx = row * n + col;
        let w = widths[col];
        if idx < self.items.len() {
            if self.padding > 0 {
                let ghost prev = v@;
                let sp = spaces_segment(self.padding, None);
                v.push(sp);
                assert(segs_model(v@) =~= segs_model(prev).push(sp@));
            }
            let inner = if w > 2 * self.padding { w - 2 * self.padding } else { 0 };
            proof {
                assert(c.items[idx as int] == segs_model(self.items@[idx as int]@));
                lemma_line_le_text(c.items[idx as int]);
                assert(padded_width(c, idx as int) <= usize::MAX);
            }
            let aligned = align_item(&self.items[idx], inner, self.align);
            push_segs(&mut v, aligned);
            if self.padding > 0 {
                let ghost prev = v@;
                let sp = spaces_segment(self.padding, None);
                v.push(sp);
                assert(segs_model(v@) =~= segs_model(prev).push(sp@));
            }
        } else {
            let ghost prev = v@;
            let sp = spaces_segment(w, None);
            v.push(sp);
            assert(segs_model(v@) =~= segs_model(prev).push(sp@));
        }
        assert(segs_model(v@) =~= cell_spec(c, widths@, n as nat, row as nat, col as int));
        v
    }

    /// Render the columns to lines of segments (see `columns_render_spec`).
    pub fn render(&self, total_width: usize) -> (lines: Vec<Vec<Segment>>)
        requires
            render_ok(self@, total_width as nat),
        ensures
            lines_model(lines@) == columns_render_spec(self@, total_width as nat),
    {
        let ghost c = self@;
        if self.items.len() == 0 {
            return Vec::new();
        }
        let n = match self.column_count { Some(n) => n, None => self.auto_column_count(total_width) };
        let widths = self.calculate_column_widths(total_width, n);
        if widths.len() == 0 {
            return Vec::new();
        }
        let len = self.items.len();
        let num_rows = (len + n - 1) / n;
        let ghost rows = columns_render_spec(c, total_width as nat);
        let mut result: Vec<Vec<Segment>> = Vec::new();
        let mut r: usize = 0;
        while r < num_rows
            invariant
                r <= num_rows,
                c == self@,
                n > 0,
                n == widths@.len(),
                widths@ == column_widths_spec(c, total_width as nat, n as nat),
                n == used_columns(c, total_width as nat),
                len == c.items.len(),
                num_rows == (len + n - 1) / n as int,
                render_ok(c, total_width as nat),
                rows == columns_render_spec(c, total_width as nat),
                result@.len() == r,
                forall|k: int| 0 <= k < r ==> #[trigger] lines_model(result@)[k] == rows[k],
            decreases num_rows - r,
        {
            let ghost cells_seq = Seq::new(n as nat, |col: int| cell_spec(c, widths@, n as nat, r as nat, col));
            let mut line: Vec<Segment> = Vec::new();
            let mut col: usize = 0;
            while col < n
                invariant
                    col <= n,
                    n == widths@.len(),
                    r < num_rows,
                    num_rows == (len + n - 1) / n as int,
                    len == c.items.len(),
                    c == self@,
                    render_ok(c, total_width as nat),
                    cells_seq == Seq::new(n as nat, |col: int| cell_spec(c, widths@, n as nat, r as nat, col)),
                    segs_model(line@) == flatten(cells_seq.take(col as int)),
                    n > 0,
                    n == used_columns(c, total_width as nat),
                decreases n - col,
            {
                proof {
                    assert(cells_seq.take(col + 1).drop_last() =~= cells_seq.take(col as int));
                    assert(r * n + col <= len + n) by (nonlinear_arith)
                        requires r < num_rows, num_rows == (len + n - 1) / n as int, col < n, n > 0;
                    assert(len + n <= usize::MAX);
                    assert(widths_ok(c, n as nat));
                }
                let cell = self.cell(&widths, n, r, col);
                push_segs(&mut line, cell);
                col += 1;
            }
            assert(cells_seq.take(n as int) =~= cells_seq);
            let ghost prev = result@;
            result.push(line);
            assert(lines_model(result@) =~= lines_model(prev).push(segs_model(line@)));
            r += 1;
        }
        assert(lines_model(result@) =~= rows);
        result
    }

    /// Render to a single list of segments, rows separated by newlines.
    pub fn render_flat(&self, total_width: usize) -> (v: Vec<Segment>)
        requires
            render_ok(self@, total_width as nat),
        ensures
            segs_model(v@) == join_lines(columns_render_spec(self@, total_width as nat)),
    {
        let lines = self.render(total_width);
        let ghost lm = lines_model(lines@);
        let mut out: Vec<Segment> = Vec::new();
        let mut i: usize = 0;
        while i < lines.len()
            invariant
                i <= lines@.len(),
                lm == lines_model(lines@),
                segs_model(out@) == join_lines(lm.take(i as int)),
            decreases lines.len() - i,
        {
            proof {
                assert(lm.take(i + 1).drop_last() =~= lm.take(i as int));
                assert(lm[i as int] == segs_model(lines@[i as int]@));
            }
            if i > 0 {
                let ghost prev = out@;
                let nl = Segment::new("\n", None);
                out.push(nl);
                assert(segs_model(out@) =~= segs_model(prev).push(nl@));
                proof {
                    reveal_strlit("\n");
                    assert("\n"@ =~= seq!['\n']);
                }
            }
            let copy = copy_line(&lines[i]);
            push_segs(&mut out, copy);
            i += 1;
        }
        assert(lm.take(lm.len() as int) =~= lm);
        out
    }
}

/// Lines joined into one, with a newline segment between consecutive lines.
pub open spec fn join_lines(lines: Seq<Seq<SegmentModel>>) -> Seq<SegmentModel>
    decreases lines.len(),
{
    if lines.len() == 0 {
        Seq::empty()
    } else if lines.len() == 1 {
        lines[0]
    } else {
        join_lines(lines.drop_last()).push(plain_model(seq!['\n'], None)) + lines.last()
    }
}

/// The sum of a sequence of widths.
pub open spec fn sum_widths(s: Seq<usize>) -> nat
    decreases s.len(),
{
    if s.len() == 0 { 0 } else { sum_widths(s.drop_last()) + (s.last() as nat) }
}

/// Widths each at most `m` sum to at most `m` times their number.
proof fn lemma_sum_widths_bound(s: Seq<usize>, m: nat)
    requires
        forall|i: int| 0 <= i < s.len() ==> s[i] <= m,
    ensures
        sum_widths(s) <= s.len() * m,
    decreases s.len(),
{
    if s.len() > 0 {
        lemma_sum_widths_bound(s.drop_last(), m);
        assert(sum_widths(s) <= (s.len() - 1) * m + m);
        assert((s.len() - 1) * m + m == s.len() * m) by (nonlinear_arith);
    }
}

/// Law: with a column count set, a layout of items has one line per row of
/// that many items, the last row filled up with blank cells.
pub proof fn law_columns_row_count(c: ColumnsModel, total: nat)
    requires
        c.items.len() >= 1,
        c.column_count matches Some(n) && n >= 1,
    ensures
        columns_render_spec(c, total).len() == (c.items.len() + c.column_count->0 - 1) / (c.column_count->0 as int),
{
}

/// Law: the column widths for `n` columns, with their gutters, fit in the
/// total width where the gutters do; equal widths are each the space left
/// after the gutters divided evenly.
pub proof fn law_column_widths_fit(c: ColumnsModel, total: nat, n: nat)
    requires
        c.items.len() >= 1,
        n >= 1,
        total >= c.gutter * (n - 1),
        total - c.gutter * (n - 1) <= usize::MAX,
    ensures
        column_widths_spec(c, total, n).len() == n,
        sum_widths(column_widths_spec(c, total, n)) + c.gutter * (n - 1) <= total,
        c.equal_width ==> forall|i: int| 0 <= i < n ==> #[trigger] column_widths_spec(c, total, n)[i] == (total - c.gutter * (n - 1)) / (n as int),
{
    let w = column_widths_spec(c, total, n);
    let available = columns_available(c, total, n);
    let share = available / n;
    assert(available == total - c.gutter * (n - 1));
    assert forall|i: int| 0 <= i < w.len() implies w[i] <= share by {}
    lemma_sum_widths_bound(w, share);
    assert(n * share <= available) by (nonlinear_arith)
        requires share == available / n, n >= 1;
}

/// A run of unstyled padding, where there is any.
pub open spec fn opt_pad(n: nat) -> Seq<SegmentModel> {
    if n > 0 { seq![pad_seg(n, None)] } else { Seq::empty() }
}

/// How padding beside an item is placed: all of the gap is used; none before
/// a left-aligned item, none after a right-aligned one, and an even split
/// (the odd cell after) around a centered one.
pub open spec fn item_placed(m: AlignMethod, before: nat, after: nat, gap: nat) -> bool {
    &&& before + after == gap
    &&& m is Left ==> before == 0
    &&& m is Right ==> after == 0
    &&& m is Center ==> before <= after <= before + 1
}

/// An item narrower than its column is padded with unstyled spaces before
/// and after that make up the column width: all after when left-aligned, all
/// before when right-aligned, and split evenly (the odd cell after) when
/// centered. An item at least as wide is left as it is.
pub proof fn law_item_alignment(item: Seq<SegmentModel>, w: nat, m: AlignMethod)
    ensures
        line_cells(item) >= w ==> align_spec(item, w, m) == item,
        line_cells(item) < w ==> exists|before: nat, after: nat|
            {
                &&& align_spec(item, w, m) == opt_pad(before) + item + opt_pad(after)
                &&& #[trigger] item_placed(m, before, after, (w - line_cells(item)) as nat)
            },
{
    if line_cells(item) < w {
        let gap = (w - line_cells(item)) as nat;
        let (l, r): (nat, nat) = match m {
            AlignMethod::Left => (0, gap),
            AlignMethod::Right => (gap, 0),
            AlignMethod::Center => (gap / 2, (gap - gap / 2) as nat),
        };
        assert(align_spec(item, w, m) =~= opt_pad(l) + item + opt_pad(r));
        assert(item_placed(m, l, r, gap));
    }
}

} // verus!
