//! Table - data in rows and columns with borders.
//!
//! Columns carry a header, a footer, styles and width constraints; the table
//! computes column widths that fit a maximum width, shrinking columns in
//! proportion to how far they can shrink and growing them by ratios or by
//! their current sizes.
use vstd::prelude::*;
use crate::box_chars::{ascii_box_spec, row_chars_spec, BoxChars, RowLevel, ASCII, SQUARE};
use crate::cells::cells;
use crate::renderables::rule::{newline_seg, segments_text, texts};
use crate::segment::{
    char_seg, char_segment, pad_seg, plain_model, push_seg, push_segs, segs_model, spaces_segment, Segment,
    SegmentModel,
};
use crate::style::{combine_model, empty_style_model, opt_style_model, Style, StyleModel};
use crate::text::{text_segs, truncated, JustifyMethod, OverflowMethod, Text, TextModel};
use crate::text_ops::{push_char, push_repeat, push_str, repeat_spec};

verus! {

/// Vertical alignment methods for cells.
#[derive(Debug, Clone, Copy, PartialEq, Eq, Default, Structural)]
pub enum VerticalAlign {
    /// Align to top of cell.
    #[default]
    Top,
    /// Align to middle of cell.
    Middle,
    /// Align to bottom of cell.
    Bottom,
}

/// Column definition for a table.
#[derive(Debug)]
pub struct Column {
    /// Header text.
    pub header: Text,
    /// Footer text.
    pub footer: Text,
    /// Style for header.
    pub header_style: Style,
    /// Style for footer.
    pub footer_style: Style,
    /// Style for cell content.
    pub style: Style,
    /// Content justification.
    pub justify: JustifyMethod,
    /// Vertical alignment.
    pub vertical: VerticalAlign,
    /// Overflow handling.
    pub overflow: OverflowMethod,
    /// Fixed width.
    pub width: Option<usize>,
    /// Minimum width.
    pub min_width: Option<usize>,
    /// Maximum width.
    pub max_width: Option<usize>,
    /// Ratio for flexible sizing.
    pub ratio: Option<usize>,
    /// Disable text wrapping.
    pub no_wrap: bool,
}

/// A column as made by `Column::new`: the given header, an empty footer,
/// plain styles, left-justified at the top, folding, without constraints.
pub open spec fn fresh_column(c: Column, header: Seq<char>) -> bool {
    &&& c.header@ == (TextModel { plain: header, style: crate::style::empty_style_model(true) })
    &&& c.footer@ == (TextModel { plain: Seq::empty(), style: crate::style::empty_style_model(true) })
    &&& c.header_style@ == crate::style::empty_style_model(false)
    &&& c.footer_style@ == crate::style::empty_style_model(false)
    &&& c.style@ == crate::style::empty_style_model(false)
    &&& c.justify == JustifyMethod::Left
    &&& c.vertical == VerticalAlign::Top
    &&& c.overflow == OverflowMethod::Fold
    &&& c.width is None && c.min_width is None && c.max_width is None && c.ratio is None
    &&& !c.no_wrap
}

impl Column {
    /// Create a new column with a header.
    pub fn new(header: &str) -> (c: Self)
        ensures
            fresh_column(c, header@),
    {
        proof {
            reveal_strlit("");
            assert(""@ =~= Seq::<char>::empty());
        }
        Column {
            header: Text::new(header),
            footer: Text::new(""),
            header_style: Style::new(),
            footer_style: Style::new(),
            style: Style::new(),
            justify: JustifyMethod::Left,
            vertical: VerticalAlign::Top,
            overflow: OverflowMethod::Fold,
            width: None,
            min_width: None,
            max_width: None,
            ratio: None,
            no_wrap: false,
        }
    }

    /// Set the footer.
    pub fn footer(self, footer: &str) -> (c: Self)
        ensures
            c.footer@ == (TextModel { plain: footer@, style: crate::style::empty_style_model(true) }),
            c == (Column { footer: c.footer, ..self }),
    {
        Column { footer: Text::new(footer), ..self }
    }

    /// Set header style.
    pub fn header_style(self, style: Style) -> (c: Self)
        ensures
            c == (Column { header_style: style, ..self }),
    {
        Column { header_style: style, ..self }
    }

    /// Set footer style.
    pub fn footer_style(self, style: Style) -> (c: Self)
        ensures
            c == (Column { footer_style: style, ..self }),
    {
        Column { footer_style: style, ..self }
    }

    /// Set cell style.
    pub fn style(self, style: Style) -> (c: Self)
        ensures
            c == (Column { style, ..self }),
    {
        Column { style, ..self }
    }

    /// Set content justification.
    pub fn justify(self, justify: JustifyMethod) -> (c: Self)
        ensures
            c == (Column { justify, ..self }),
    {
        Column { justify, ..self }
    }

    /// Set vertical alignment.
    pub fn vertical(self, align: VerticalAlign) -> (c: Self)
        ensures
            c == (Column { vertical: align, ..self }),
    {
        Column { vertical: align, ..self }
    }

    /// Set fixed width.
    pub fn width(self, width: usize) -> (c: Self)
        ensures
            c == (Column { width: Some(width), ..self }),
    {
        Column { width: Some(width), ..self }
    }

    /// Set minimum width.
    pub fn min_width(self, width: usize) -> (c: Self)
        ensures
            c == (Column { min_width: Some(width), ..self }),
    {
        Column { min_width: Some(width), ..self }
    }

    /// Set maximum width.
    pub fn max_width(self, width: usize) -> (c: Self)
        ensures
            c == (Column { max_width: Some(width), ..self }),
    {
        Column { max_width: Some(width), ..self }
    }

    /// Set overflow handling.
    pub fn overflow(self, overflow: OverflowMethod) -> (c: Self)
        ensures
            c == (Column { overflow, ..self }),
    {
        Column { overflow, ..self }
    }

    /// Set flex ratio.
    pub fn ratio(self, ratio: usize) -> (c: Self)
        ensures
            c == (Column { ratio: Some(ratio), ..self }),
    {
        Column { ratio: Some(ratio), ..self }
    }

    /// Disable text wrapping.
    pub fn no_wrap(self) -> (c: Self)
        ensures
            c == (Column { no_wrap: true, ..self }),
    {
        Column { no_wrap: true, ..self }
    }

    /// Get the header width.
    fn header_width(&self) -> (n: usize)
        requires
            cells(self.header@.plain) <= usize::MAX,
        ensures
            n == cells(self.header@.plain),
    {
        self.header.cell_len()
    }

    /// Get the footer width.
    fn footer_width(&self) -> (n: usize)
        requires
            cells(self.footer@.plain) <= usize::MAX,
        ensures
            n == cells(self.footer@.plain),
    {
        self.footer.cell_len()
    }
}

/// A table cell.
#[derive(Debug)]
pub struct Cell {
    /// Cell content.
    pub content: Text,
    /// Cell-specific style (overrides column style).
    pub style: Option<Style>,
}

impl Cell {
    /// Create a new cell.
    pub fn new(content: &str) -> (c: Self)
        ensures
            c.content@ == (TextModel { plain: content@, style: crate::style::empty_style_model(true) }),
            c.style is None,
    {
        Cell { content: Text::new(content), style: None }
    }

    /// Set cell style.
    pub fn style(self, style: Style) -> (c: Self)
        ensures
            c == (Cell { style: Some(style), ..self }),
    {
        Cell { style: Some(style), ..self }
    }

    /// Get cell width.
    fn width(&self) -> (n: usize)
        requires
            cells(self.content@.plain) <= usize::MAX,
        ensures
            n == cells(self.content@.plain),
    {
        self.content.cell_len()
    }
}

impl From<&str> for Cell {
    fn from(value: &str) -> (c: Self) {
        Cell::new(value)
    }
}

impl vstd::std_specs::convert::FromSpecImpl<&str> for Cell {
    open spec fn obeys_from_spec() -> bool {
        false
    }

    open spec fn from_spec(v: &str) -> Self {
        arbitrary()
    }
}

/// A table row.
#[derive(Debug)]
pub struct Row {
    /// Cells in this row.
    pub cells: Vec<Cell>,
    /// Row-level style.
    pub style: Style,
    /// Draw separator after this row.
    pub end_section: bool,
}

impl Row {
    /// Create a new row with cells.
    pub fn new(cells: Vec<Cell>) -> (r: Self)
        ensures
            r.cells == cells,
            r.style@ == crate::style::empty_style_model(false),
            !r.end_section,
    {
        Row { cells, style: Style::new(), end_section: false }
    }

    /// Set row style.
    pub fn style(self, style: Style) -> (r: Self)
        ensures
            r == (Row { style, ..self }),
    {
        Row { style, ..self }
    }

    /// Mark this row as ending a section.
    pub fn end_section(self) -> (r: Self)
        ensures
            r == (Row { end_section: true, ..self }),
    {
        Row { end_section: true, ..self }
    }
}

/// A data table with columns and rows.
#[derive(Debug)]
pub struct Table {
    /// Column definitions.
    pub columns: Vec<Column>,
    /// Data rows.
    pub rows: Vec<Row>,
    /// Table title.
    title: Option<Text>,
    /// Table caption (below).
    caption: Option<Text>,
    /// Fixed width.
    width: Option<usize>,
    /// Minimum width.
    min_width: Option<usize>,
    /// Box style.
    box_style: BoxChars,
    /// Force ASCII boxes.
    safe_box: bool,
    /// Cell padding (horizontal, vertical).
    padding: (usize, usize),
    /// Collapse padding between cells.
    collapse_padding: bool,
    /// Pad outer edges.
    pad_edge: bool,
    /// Expand to fill width.
    expand: bool,
    /// Show header row.
    show_header: bool,
    /// Show footer row.
    show_footer: bool,
    /// Show left/right edges.
    show_edge: bool,
    /// Show lines between rows.
    show_lines: bool,
    /// Extra blank lines between rows.
    leading: usize,
    /// Table-level style.
    style: Style,
    /// Alternating row styles.
    row_styles: Vec<Style>,
    /// Header style.
    header_style: Style,
    /// Footer style.
    footer_style: Style,
    /// Border style.
    border_style: Style,
    /// Title style.
    title_style: Style,
    /// Caption style.
    caption_style: Style,
    /// Title justification.
    title_justify: JustifyMethod,
    /// Caption justification.
    caption_justify: JustifyMethod,
}

/// The value of a table's settings.
pub struct TableModel {
    pub columns: Seq<Column>,
    pub rows: Seq<Row>,
    pub title: Option<TextModel>,
    pub caption: Option<TextModel>,
    pub width: Option<usize>,
    pub min_width: Option<usize>,
    pub box_style: BoxChars,
    pub safe_box: bool,
    pub padding: (usize, usize),
    pub collapse_padding: bool,
    pub pad_edge: bool,
    pub expand: bool,
    pub show_header: bool,
    pub show_footer: bool,
    pub show_edge: bool,
    pub show_lines: bool,
    pub leading: usize,
    pub style: StyleModel,
    pub row_styles: Seq<StyleModel>,
    pub header_style: StyleModel,
    pub footer_style: StyleModel,
    pub border_style: StyleModel,
    pub title_style: StyleModel,
    pub caption_style: StyleModel,
    pub title_justify: JustifyMethod,
    pub caption_justify: JustifyMethod,
}

/// The value of an optional text.
pub open spec fn opt_text(t: Option<Text>) -> Option<TextModel> {
    match t { Some(t) => Some(t@), None => None }
}

/// The values of a sequence of styles.
pub open spec fn style_views(v: Seq<Style>) -> Seq<StyleModel> {
    v.map_values(|s: Style| s@)
}

impl View for Table {
    type V = TableModel;

    closed spec fn view(&self) -> TableModel {
        TableModel {
            columns: self.columns@,
            rows: self.rows@,
            title: opt_text(self.title),
            caption: opt_text(self.caption),
            width: self.width,
            min_width: self.min_width,
            box_style: self.box_style,
            safe_box: self.safe_box,
            padding: self.padding,
            collapse_padding: self.collapse_padding,
            pad_edge: self.pad_edge,
            expand: self.expand,
            show_header: self.show_header,
            show_footer: self.show_footer,
            show_edge: self.show_edge,
            show_lines: self.show_lines,
            leading: self.leading,
            style: self.style@,
            row_styles: style_views(self.row_styles@),
            header_style: self.header_style@,
            footer_style: self.footer_style@,
            border_style: self.border_style@,
            title_style: self.title_style@,
            caption_style: self.caption_style@,
            title_justify: self.title_justify,
            caption_justify: self.caption_justify,
        }
    }
}

/// A new table's settings, with the given box style: no columns, rows, title
/// or caption; padding of one cell horizontally; edges padded and shown; a
/// bold header shown and no footer; centered title and caption.
pub open spec fn default_table(box_style: BoxChars) -> TableModel {
    TableModel {
        columns: Seq::empty(),
        rows: Seq::empty(),
        title: None,
        caption: None,
        width: None,
        min_width: None,
        box_style,
        safe_box: false,
        padding: (1, 0),
        collapse_padding: false,
        pad_edge: true,
        expand: false,
        show_header: true,
        show_footer: false,
        show_edge: true,
        show_lines: false,
        leading: 0,
        style: crate::style::empty_style_model(false),
        row_styles: Seq::empty(),
        header_style: crate::style::with_attr_model(crate::style::empty_style_model(false), 1),
        footer_style: crate::style::empty_style_model(false),
        border_style: crate::style::empty_style_model(false),
        title_style: crate::style::empty_style_model(false),
        caption_style: crate::style::empty_style_model(false),
        title_justify: JustifyMethod::Center,
        caption_justify: JustifyMethod::Center,
    }
}

impl Default for Table {
    fn default() -> (t: Self)
        ensures
            t@ == default_table(t@.box_style),
            !t@.box_style.ascii,
    {
        let t = Table {
            columns: Vec::new(),
            rows: Vec::new(),
            title: None,
            caption: None,
            width: None,
            min_width: None,
            box_style: SQUARE(),
            safe_box: false,
            padding: (1, 0),
            collapse_padding: false,
            pad_edge: true,
            expand: false,
            show_header: true,
            show_footer: false,
            show_edge: true,
            show_lines: false,
            leading: 0,
            style: Style::new(),
            row_styles: Vec::new(),
            header_style: Style::new().bold(),
            footer_style: Style::new(),
            border_style: Style::new(),
            title_style: Style::new(),
            caption_style: Style::new(),
            title_justify: JustifyMethod::Center,
            caption_justify: JustifyMethod::Center,
        };
        assert(t.columns@ =~= Seq::<Column>::empty());
        assert(t.rows@ =~= Seq::<Row>::empty());
        assert(style_views(t.row_styles@) =~= Seq::<StyleModel>::empty());
        t
    }
}

impl Table {
    /// Create a new empty table.
    pub fn new() -> (t: Self)
        ensures
            t@ == default_table(t@.box_style),
            !t@.box_style.ascii,
    {
        Table::default()
    }

    /// Add a column.
    pub fn add_column(&mut self, column: Column)
        ensures
            final(self)@ == (TableModel { columns: old(self)@.columns.push(column), ..old(self)@ }),
    {
        self.columns.push(column);
    }

    /// Add columns, in order.
    pub fn add_columns(&mut self, columns: Vec<Column>)
        ensures
            final(self)@ == (TableModel { columns: old(self)@.columns + columns@, ..old(self)@ }),
    {
        let mut columns = columns;
        self.columns.append(&mut columns);
    }

    /// Add a column (builder form).
    pub fn with_column(self, column: Column) -> (t: Self)
        ensures
            t@ == (TableModel { columns: self@.columns.push(column), ..self@ }),
    {
        let mut t = self;
        t.add_column(column);
        t
    }

    /// Add columns (builder form).
    pub fn with_columns(self, columns: Vec<Column>) -> (t: Self)
        ensures
            t@ == (TableModel { columns: self@.columns + columns@, ..self@ }),
    {
        let mut t = self;
        t.add_columns(columns);
        t
    }

    /// Add a row.
    pub fn add_row(&mut self, row: Row)
        ensures
            final(self)@ == (TableModel { rows: old(self)@.rows.push(row), ..old(self)@ }),
    {
        self.rows.push(row);
    }

    /// Add rows, in order.
    pub fn add_rows(&mut self, rows: Vec<Row>)
        ensures
            final(self)@ == (TableModel { rows: old(self)@.rows + rows@, ..old(self)@ }),
    {
        let mut rows = rows;
        self.rows.append(&mut rows);
    }

    /// Add a row (builder form).
    pub fn with_row(self, row: Row) -> (t: Self)
        ensures
            t@ == (TableModel { rows: self@.rows.push(row), ..self@ }),
    {
        let mut t = self;
        t.add_row(row);
        t
    }

    /// Add rows (builder form).
    pub fn with_rows(self, rows: Vec<Row>) -> (t: Self)
        ensures
            t@ == (TableModel { rows: self@.rows + rows@, ..self@ }),
    {
        let mut t = self;
        t.add_rows(rows);
        t
    }

    /// Add a row of plain cells with the given texts.
    pub fn add_row_cells<const N: usize>(&mut self, cells: [&str; N])
        ensures
            final(self)@.rows.len() == old(self)@.rows.len() + 1,
            final(self)@.rows.drop_last() == old(self)@.rows,
            final(self)@.rows.last().cells@.len() == N,
            forall|i: int| 0 <= i < N ==> (#[trigger] final(self)@.rows.last().cells@[i]).content@.plain == cells@[i]@,
            final(self)@ == (TableModel { rows: final(self)@.rows, ..old(self)@ }),
    {
        let mut v: Vec<Cell> = Vec::new();
        let mut i: usize = 0;
        while i < N
            invariant
                i <= N,
                v@.len() == i,
                forall|k: int| 0 <= k < i ==> (#[trigger] v@[k]).content@.plain == cells@[k]@,
            decreases N - i,
        {
            v.push(Cell::new(cells[i]));
            i += 1;
        }
        let ghost before = self.rows@;
        self.rows.push(Row::new(v));
        assert(self.rows@.drop_last() =~= before);
    }

    /// Add a row of plain cells (builder form).
    pub fn with_row_cells<const N: usize>(self, cells: [&str; N]) -> (t: Self)
        ensures
            t@.rows.len() == self@.rows.len() + 1,
            t@.rows.drop_last() == self@.rows,
            t@.rows.last().cells@.len() == N,
            forall|i: int| 0 <= i < N ==> (#[trigger] t@.rows.last().cells@[i]).content@.plain == cells@[i]@,
            t@ == (TableModel { rows: t@.rows, ..self@ }),
    {
        let mut t = self;
        t.add_row_cells(cells);
        t
    }

    /// Set the title.
    pub fn title(self, title: &str) -> (t: Self)
        ensures
            t@ == (TableModel {
                title: Some(TextModel { plain: title@, style: crate::style::empty_style_model(true) }),
                ..self@
            }),
    {
        Table { title: Some(Text::new(title)), ..self }
    }

    /// Set the caption.
    pub fn caption(self, caption: &str) -> (t: Self)
        ensures
            t@ == (TableModel {
                caption: Some(TextModel { plain: caption@, style: crate::style::empty_style_model(true) }),
                ..self@
            }),
    {
        Table { caption: Some(Text::new(caption)), ..self }
    }

    /// Set a fixed width.
    pub fn width(self, width: usize) -> (t: Self)
        ensures
            t@ == (TableModel { width: Some(width), ..self@ }),
    {
        Table { width: Some(width), ..self }
    }

    /// Set a minimum width.
    pub fn min_width(self, width: usize) -> (t: Self)
        ensures
            t@ == (TableModel { min_width: Some(width), ..self@ }),
    {
        Table { min_width: Some(width), ..self }
    }

    /// Set the box style.
    pub fn box_style(self, style: BoxChars) -> (t: Self)
        ensures
            t@ == (TableModel { box_style: style, ..self@ }),
    {
        Table { box_style: style, ..self }
    }

    /// Use ASCII box characters.
    pub fn ascii(self) -> (t: Self)
        ensures
            t@ == (TableModel { box_style: crate::box_chars::ascii_box_spec(), safe_box: true, ..self@ }),
    {
        Table { box_style: ASCII(), safe_box: true, ..self }
    }

    /// Force ASCII-safe rendering.
    pub fn safe_box(self, safe: bool) -> (t: Self)
        ensures
            t@ == (TableModel { safe_box: safe, ..self@ }),
    {
        Table { safe_box: safe, ..self }
    }

    /// Set cell padding (horizontal, vertical).
    pub fn padding(self, horizontal: usize, vertical: usize) -> (t: Self)
        ensures
            t@ == (TableModel { padding: (horizontal, vertical), ..self@ }),
    {
        Table { padding: (horizontal, vertical), ..self }
    }

    /// Collapse padding between cells.
    pub fn collapse_padding(self, collapse: bool) -> (t: Self)
        ensures
            t@ == (TableModel { collapse_padding: collapse, ..self@ }),
    {
        Table { collapse_padding: collapse, ..self }
    }

    /// Pad the outer edges.
    pub fn pad_edge(self, pad: bool) -> (t: Self)
        ensures
            t@ == (TableModel { pad_edge: pad, ..self@ }),
    {
        Table { pad_edge: pad, ..self }
    }

    /// Expand to fill the width.
    pub fn expand(self, expand: bool) -> (t: Self)
        ensures
            t@ == (TableModel { expand, ..self@ }),
    {
        Table { expand, ..self }
    }

    /// Show the header row.
    pub fn show_header(self, show: bool) -> (t: Self)
        ensures
            t@ == (TableModel { show_header: show, ..self@ }),
    {
        Table { show_header: show, ..self }
    }

    /// Show the footer row.
    pub fn show_footer(self, show: bool) -> (t: Self)
        ensures
            t@ == (TableModel { show_footer: show, ..self@ }),
    {
        Table { show_footer: show, ..self }
    }

    /// Show the left and right edges.
    pub fn show_edge(self, show: bool) -> (t: Self)
        ensures
            t@ == (TableModel { show_edge: show, ..self@ }),
    {
        Table { show_edge: show, ..self }
    }

    /// Show lines between rows.
    pub fn show_lines(self, show: bool) -> (t: Self)
        ensures
            t@ == (TableModel { show_lines: show, ..self@ }),
    {
        Table { show_lines: show, ..self }
    }

    /// Set the number of blank lines between rows.
    pub fn leading(self, leading: usize) -> (t: Self)
        ensures
            t@ == (TableModel { leading, ..self@ }),
    {
        Table { leading, ..self }
    }

    /// Set the border style.
    pub fn border_style(self, style: Style) -> (t: Self)
        ensures
            t@ == (TableModel { border_style: style@, ..self@ }),
    {
        Table { border_style: style, ..self }
    }

    /// Set the title style.
    pub fn title_style(self, style: Style) -> (t: Self)
        ensures
            t@ == (TableModel { title_style: style@, ..self@ }),
    {
        Table { title_style: style, ..self }
    }

    /// Set the caption style.
    pub fn caption_style(self, style: Style) -> (t: Self)
        ensures
            t@ == (TableModel { caption_style: style@, ..self@ }),
    {
        Table { caption_style: style, ..self }
    }

    /// Set the title justification.
    pub fn title_justify(self, justify: JustifyMethod) -> (t: Self)
        ensures
            t@ == (TableModel { title_justify: justify, ..self@ }),
    {
        Table { title_justify: justify, ..self }
    }

    /// Set the caption justification.
    pub fn caption_justify(self, justify: JustifyMethod) -> (t: Self)
        ensures
            t@ == (TableModel { caption_justify: justify, ..self@ }),
    {
        Table { caption_justify: justify, ..self }
    }

    /// Set the header style.
    pub fn header_style(self, style: Style) -> (t: Self)
        ensures
            t@ == (TableModel { header_style: style@, ..self@ }),
    {
        Table { header_style: style, ..self }
    }

    /// Set the alternating row styles.
    pub fn row_styles(self, styles: Vec<Style>) -> (t: Self)
        ensures
            t@ == (TableModel { row_styles: style_views(styles@), ..self@ }),
    {
        Table { row_styles: styles, ..self }
    }

    /// The box characters in use: ASCII when ASCII-safe rendering is forced
    /// on a box that is not ASCII already.
    fn effective_box(&self) -> (b: BoxChars)
        ensures
            b == if self@.safe_box && !self@.box_style.ascii {
                crate::box_chars::ascii_box_spec()
            } else {
                self@.box_style
            },
    {
        if self.safe_box && !self.box_style.ascii {
            ASCII()
        } else {
            self.box_style
        }
    }
}

/// The sum of a sequence of widths.
pub open spec fn total(s: Seq<usize>) -> nat
    decreases s.len(),
{
    if s.len() == 0 { 0 } else { total(s.drop_last()) + (s.last() as nat) }
}

/// `a - b`, or 0 where `b` is larger.
pub open spec fn sat_sub(a: int, b: int) -> nat {
    if a > b { (a - b) as nat } else { 0 }
}

/// The smaller of two numbers.
pub open spec fn min_nat(a: nat, b: nat) -> nat {
    if a < b { a } else { b }
}

/// The larger of two numbers.
pub open spec fn max_nat(a: nat, b: nat) -> nat {
    if a > b { a } else { b }
}

/// The sum of a prefix never exceeds the sum of the whole.
pub proof fn lemma_total_prefix(s: Seq<usize>, i: int)
    requires
        0 <= i <= s.len(),
    ensures
        total(s.take(i)) <= total(s),
    decreases s.len() - i,
{
    if i < s.len() {
        lemma_total_prefix(s, i + 1);
        assert(s.take(i + 1).drop_last() =~= s.take(i));
    } else {
        assert(s.take(i) =~= s);
    }
}

/// Each element is at most the sum.
pub proof fn lemma_total_element(s: Seq<usize>, i: int)
    requires
        0 <= i < s.len(),
    ensures
        s[i] <= total(s),
{
    lemma_total_prefix(s, i + 1);
    assert(s.take(i + 1).drop_last() =~= s.take(i));
}

/// Sums agree where the sequences agree.
pub proof fn lemma_total_update(s: Seq<usize>, i: int, v: usize)
    requires
        0 <= i < s.len(),
    ensures
        total(s.update(i, v)) + s[i] == total(s) + v,
    decreases s.len(),
{
    if i < s.len() - 1 {
        assert(s.update(i, v).drop_last() =~= s.drop_last().update(i, v));
        lemma_total_update(s.drop_last(), i, v);
    } else {
        assert(s.update(i, v).drop_last() =~= s.drop_last());
    }
}

/// The sum of a sequence of widths, which must fit.
fn sum_widths(v: &[usize]) -> (r: usize)
    requires
        total(v@) <= usize::MAX,
    ensures
        r == total(v@),
{
    let mut acc: usize = 0;
    let mut i: usize = 0;
    while i < v.len()
        invariant
            i <= v@.len(),
            acc == total(v@.take(i as int)),
            total(v@) <= usize::MAX,
        decreases v.len() - i,
    {
        proof {
            assert(v@.take(i + 1).drop_last() =~= v@.take(i as int));
            lemma_total_prefix(v@, i + 1);
        }
        acc = acc + v[i];
        i += 1;
    }
    assert(v@.take(v@.len() as int) =~= v@);
    acc
}

/// The minimum width of each column (1 where unset).
pub open spec fn col_mins(cols: Seq<Column>) -> Seq<usize> {
    Seq::new(cols.len(), |i: int| match cols[i].min_width { Some(m) => m, None => 1usize })
}

/// How far each width is above its minimum.
pub open spec fn shrink_of(w: Seq<usize>, m: Seq<usize>) -> Seq<usize> {
    Seq::new(w.len(), |i: int| sat_sub(w[i] as int, m[i] as int) as usize)
}

/// Widths reduced in proportion to how far each can shrink: a column that
/// can shrink by `s` loses `s * excess / ts` (rounded down), never going
/// below zero.
pub open spec fn reduced_widths(w: Seq<usize>, m: Seq<usize>, excess: nat, ts: nat) -> Seq<usize> {
    Seq::new(w.len(), |i: int| {
        let s = sat_sub(w[i] as int, m[i] as int);
        if s > 0 { sat_sub(w[i] as int, (s * excess / ts) as int) as usize } else { w[i] }
    })
}

/// The rounding fix-up: from the last column backwards, each column above its
/// minimum gives up as much of the remaining `diff` as it can.
pub open spec fn fixup(r: Seq<usize>, m: Seq<usize>, diff: nat, k: nat) -> Seq<usize>
    decreases k,
{
    if k == 0 || diff == 0 || k > r.len() {
        r
    } else {
        let i = k - 1;
        if r[i] > m[i] {
            let c = min_nat((r[i] - m[i]) as nat, diff);
            fixup(r.update(i, (r[i] - c) as usize), m, (diff - c) as nat, (k - 1) as nat)
        } else {
            fixup(r, m, diff, (k - 1) as nat)
        }
    }
}

/// Widths shrunk to fit `available` cells where they are wider: reduced in
/// proportion to how far each column can shrink, then fixed up for rounding.
/// Widths that cannot shrink at all are left as they are.
pub open spec fn collapse_spec(w: Seq<usize>, m: Seq<usize>, available: nat) -> Seq<usize> {
    let t = total(w);
    if t <= available {
        w
    } else {
        let excess = (t - available) as nat;
        let ts = total(shrink_of(w, m));
        if ts == 0 {
            w
        } else {
            let r = reduced_widths(w, m, excess, ts);
            let nt = total(r);
            if nt > available { fixup(r, m, (nt - available) as nat, r.len()) } else { r }
        }
    }
}

/// The inputs on which collapsing computes without overflow: the sum of the
/// widths fits, and so does each proportional reduction's product.
pub open spec fn collapse_ok(w: Seq<usize>, m: Seq<usize>, available: nat) -> bool {
    &&& total(w) <= usize::MAX
    &&& total(w) > available ==> forall|i: int| 0 <= i < w.len() ==>
        #[trigger] shrink_of(w, m)[i] * (total(w) - available) <= usize::MAX
}

/// Copy of a slice of widths.
fn copy_widths(v: &[usize]) -> (r: Vec<usize>)
    ensures
        r@ == v@,
{
    let mut r: Vec<usize> = Vec::new();
    let mut i: usize = 0;
    while i < v.len()
        invariant
            i <= v@.len(),
            r@ == v@.take(i as int),
        decreases v.len() - i,
    {
        r.push(v[i]);
        i += 1;
        assert(r@ =~= v@.take(i as int));
    }
    assert(v@.take(v@.len() as int) =~= v@);
    r
}

/// Shrinking never raises a sum: the shrink amounts are bounded by the widths.
pub proof fn lemma_shrink_total(w: Seq<usize>, m: Seq<usize>)
    requires
        m.len() == w.len(),
    ensures
        total(shrink_of(w, m)) <= total(w),
    decreases w.len(),
{
    if w.len() > 0 {
        assert(shrink_of(w, m).drop_last() =~= shrink_of(w.drop_last(), m.drop_last()));
        lemma_shrink_total(w.drop_last(), m.drop_last());
    }
}

/// Reducing never raises a sum.
pub proof fn lemma_reduced_total(w: Seq<usize>, m: Seq<usize>, excess: nat, ts: nat)
    requires
        m.len() == w.len(),
        ts > 0,
    ensures
        total(reduced_widths(w, m, excess, ts)) <= total(w),
    decreases w.len(),
{
    if w.len() > 0 {
        let r = reduced_widths(w, m, excess, ts);
        assert(r.drop_last() =~= reduced_widths(w.drop_last(), m.drop_last(), excess, ts));
        lemma_reduced_total(w.drop_last(), m.drop_last(), excess, ts);
        let i = w.len() - 1;
        assert(r.last() == r[i]);
        assert(r[i] <= w[i]);
    }
}

/// Collapse column widths to fit available space (see `collapse_spec`).
fn collapse_widths_with(widths: &[usize], mins: &Vec<usize>, available: usize) -> (r: Vec<usize>)
    requires
        mins@.len() == widths@.len(),
        collapse_ok(widths@, mins@, available as nat),
    ensures
        r@ == collapse_spec(widths@, mins@, available as nat),
{
    let ghost w = widths@;
    let ghost m = mins@;
    let n = widths.len();
    let total_w = sum_widths(widths);
    if total_w <= available {
        assert(collapse_spec(w, m, available as nat) == w);
        return copy_widths(widths);
    }
    let excess = total_w - available;
    let mut shrinkable: Vec<usize> = Vec::new();
    let mut i: usize = 0;
    while i < n
        invariant
            i <= n,
            n == w.len(),
            m.len() == n,
            w == widths@,
            m == mins@,
            shrinkable@ == shrink_of(w, m).take(i as int),
        decreases n - i,
    {
        let s = if widths[i] > mins[i] { widths[i] - mins[i] } else { 0 };
        shrinkable.push(s);
        i += 1;
        assert(shrinkable@ =~= shrink_of(w, m).take(i as int));
    }
    assert(shrinkable@ =~= shrink_of(w, m));
    proof {
        lemma_shrink_total(w, m);
    }
    let total_shrinkable = sum_widths(shrinkable.as_slice());
    assert(total_shrinkable == total(shrink_of(w, m)));
    if total_shrinkable == 0 {
        assert(collapse_spec(w, m, available as nat) == w);
        return copy_widths(widths);
    }
    let ghost red = reduced_widths(w, m, excess as nat, total_shrinkable as nat);
    let mut result: Vec<usize> = Vec::new();
    let mut i: usize = 0;
    while i < n
        invariant
            i <= n,
            n == w.len(),
            m.len() == n,
            w == widths@,
            shrinkable@ == shrink_of(w, m),
            total_shrinkable > 0,
            excess == total(w) - available,
            collapse_ok(w, m, available as nat),
            total(w) > available,
            red == reduced_widths(w, m, excess as nat, total_shrinkable as nat),
            result@ == red.take(i as int),
        decreases n - i,
    {
        let s = shrinkable[i];
        let v = if s > 0 {
            assert(shrink_of(w, m)[i as int] * (total(w) - available) <= usize::MAX);
            let reduction = s * excess / total_shrinkable;
            if widths[i] > reduction { widths[i] - reduction } else { 0 }
        } else {
            widths[i]
        };
        result.push(v);
        i += 1;
        assert(result@ =~= red.take(i as int));
    }
    assert(result@ =~= red);
    proof {
        lemma_reduced_total(w, m, excess as nat, total_shrinkable as nat);
    }
    let new_total = sum_widths(result.as_slice());
    if new_total <= available {
        assert(collapse_spec(w, m, available as nat) == red);
        return result;
    }
    let mut diff = new_total - available;
    assert(collapse_spec(w, m, available as nat) == fixup(red, m, (total(red) - available) as nat, n as nat));
    let mut k: usize = n;
    while k > 0
        invariant
            k <= n,
            n == result@.len(),
            m.len() == n,
            m == mins@,
            fixup(result@, m, diff as nat, k as nat) == fixup(red, m, (total(red) - available) as nat, n as nat),
            collapse_spec(w, m, available as nat) == fixup(red, m, (total(red) - available) as nat, n as nat),
            w == widths@,
        decreases k,
    {
        if diff == 0 {
            assert(fixup(result@, m, diff as nat, k as nat) == result@);
            return result;
        }
        let j = k - 1;
        if result[j] > mins[j] {
            let room = result[j] - mins[j];
            let c = if room < diff { room } else { diff };
            let nv = result[j] - c;
            result.set(j, nv);
            diff = diff - c;
        }
        k = j;
    }
    assert(fixup(result@, m, diff as nat, 0) == result@);
    result
}

impl Table {
    /// Collapse column widths to fit available space (see `collapse_spec`,
    /// with the columns' minimum widths).
    pub fn collapse_widths(&self, widths: &[usize], available: usize) -> (r: Vec<usize>)
        requires
            widths@.len() == self@.columns.len(),
            collapse_ok(widths@, col_mins(self@.columns), available as nat),
        ensures
            r@ == collapse_spec(widths@, col_mins(self@.columns), available as nat),
    {
        let mut mins: Vec<usize> = Vec::new();
        let mut i: usize = 0;
        while i < self.columns.len()
            invariant
                i <= self.columns@.len(),
                mins@ == col_mins(self.columns@).take(i as int),
            decreases self.columns.len() - i,
        {
            let m = match self.columns[i].min_width { Some(m) => m, None => 1 };
            mins.push(m);
            i += 1;
            assert(mins@ =~= col_mins(self.columns@).take(i as int));
        }
        assert(mins@ =~= col_mins(self.columns@));
        collapse_widths_with(widths, &mins, available)
    }
}

/// `a * n / b` rounded to the nearest integer, halves rounded up (`b > 0`).
pub open spec fn rounded_share(a: nat, b: nat, n: nat) -> nat {
    (2 * a * n + b) / (2 * b)
}

/// Calls num-rational: `(Ratio::new(a, b) * n).round().to_integer()`. Its
/// source reduces `a / b`, multiplies by `n` and rounds to the nearest
/// integer, half-way cases away from zero: for `a <= b` that is
/// `(2an + b) / (2b)` rounded down. `Ratio::new` panics on a zero denominator,
/// and the product must fit in `usize`.
#[verifier::external_body]
fn ratio_share(a: usize, b: usize, n: usize) -> (r: usize)
    requires
        b > 0,
        a <= b,
        a * n <= usize::MAX,
    ensures
        r == rounded_share(a as nat, b as nat, n as nat),
{
    (num_rational::Ratio::new(a, b) * n).round().to_integer()
}

/// `a + b`, or `usize::MAX` where that overflows.
pub open spec fn sat_add(a: usize, b: nat) -> usize {
    if a + b > usize::MAX { usize::MAX } else { (a + b) as usize }
}

/// The state after handing out extra width to the first `k` columns in
/// proportion to their weights: the widths so far, the amount handed out, and
/// how many weighted columns have been served. The last weighted column
/// (number `last`) gets whatever is left instead of its rounded share.
pub open spec fn distribute(
    w: Seq<usize>,
    weights: Seq<usize>,
    total_w: nat,
    remaining: nat,
    last: nat,
    k: nat,
) -> (Seq<usize>, nat, nat)
    decreases k,
{
    if k == 0 || k > w.len() {
        (w, 0, 0)
    } else {
        let prev = distribute(w, weights, total_w, remaining, last, (k - 1) as nat);
        let i = k - 1;
        if weights[i] > 0 {
            let idx = prev.2 + 1;
            let extra = if idx == last { sat_sub(remaining as int, prev.1 as int) } else {
                rounded_share(weights[i] as nat, total_w, remaining)
            };
            (prev.0.update(i, sat_add(prev.0[i], extra)), prev.1 + extra, idx)
        } else {
            prev
        }
    }
}

/// Handing out never exceeds what is there at any step, and each share's
/// product fits: the inputs on which the distribution computes without
/// overflow.
pub open spec fn distribute_ok(w: Seq<usize>, weights: Seq<usize>, total_w: nat, remaining: nat, last: nat) -> bool {
    &&& weights.len() == w.len()
    &&& total_w > 0
    &&& total_w <= usize::MAX
    &&& forall|i: int| 0 <= i < w.len() ==> #[trigger] weights[i] <= total_w
    &&& forall|i: int| 0 <= i < w.len() ==> #[trigger] weights[i] * remaining <= usize::MAX
    &&& forall|k: nat| k <= w.len() ==> #[trigger] distribute(w, weights, total_w, remaining, last, k).1 <= remaining
}

/// Hand out `remaining` extra cells by weights (see `distribute`).
fn distribute_exec(w: &[usize], weights: &Vec<usize>, total_w: usize, remaining: usize, last: usize) -> (r: Vec<usize>)
    requires
        distribute_ok(w@, weights@, total_w as nat, remaining as nat, last as nat),
        remaining <= usize::MAX,
    ensures
        r@ == distribute(w@, weights@, total_w as nat, remaining as nat, last as nat, w@.len()).0,
{
    let ghost ws = w@;
    let mut sizes = copy_widths(w);
    let mut distributed: usize = 0;
    let mut idx: usize = 0;
    let mut i: usize = 0;
    while i < w.len()
        invariant
            i <= w@.len(),
            ws == w@,
            distribute_ok(ws, weights@, total_w as nat, remaining as nat, last as nat),
            sizes@ == distribute(ws, weights@, total_w as nat, remaining as nat, last as nat, i as nat).0,
            distributed == distribute(ws, weights@, total_w as nat, remaining as nat, last as nat, i as nat).1,
            idx == distribute(ws, weights@, total_w as nat, remaining as nat, last as nat, i as nat).2,
            idx <= i,
            sizes@.len() == ws.len(),
        decreases w.len() - i,
    {
        proof {
            lemma_distribute_len(ws, weights@, total_w as nat, remaining as nat, last as nat, i as nat);
        }
        let weight = weights[i];
        if weight > 0 {
            idx = idx + 1;
            let extra = if idx == last {
                if remaining > distributed { remaining - distributed } else { 0 }
            } else {
                ratio_share(weight, total_w, remaining)
            };
            let cur = sizes[i];
            let nv = if cur <= usize::MAX - extra { cur + extra } else { usize::MAX };
            sizes.set(i, nv);
            assert(distribute(ws, weights@, total_w as nat, remaining as nat, last as nat, (i + 1) as nat).1 <= remaining);
            distributed = distributed + extra;
        }
        i += 1;
    }
    sizes
}

/// The widths in a distribution state keep their number.
pub proof fn lemma_distribute_len(w: Seq<usize>, weights: Seq<usize>, total_w: nat, remaining: nat, last: nat, k: nat)
    ensures
        distribute(w, weights, total_w, remaining, last, k).0.len() == w.len(),
        distribute(w, weights, total_w, remaining, last, k).2 <= k,
    decreases k,
{
    if k > 0 && k <= w.len() {
        lemma_distribute_len(w, weights, total_w, remaining, last, (k - 1) as nat);
    }
}

/// The ratio of each column (0 where unset).
pub open spec fn ratio_of(col: Column) -> usize {
    match col.ratio { Some(r) => r, None => 0 }
}

/// The ratios that take part in expansion: those of columns narrower than the
/// available width.
pub open spec fn flex_ratios(cols: Seq<Column>, w: Seq<usize>, available: nat) -> Seq<usize> {
    Seq::new(w.len(), |i: int| if ratio_of(cols[i]) > 0 && w[i] < available { ratio_of(cols[i]) } else { 0usize })
}

/// How many entries are positive.
pub open spec fn count_pos(s: Seq<usize>) -> nat
    decreases s.len(),
{
    if s.len() == 0 { 0 } else { count_pos(s.drop_last()) + if s.last() > 0 { 1nat } else { 0nat } }
}

/// Widths grown by column ratios to fill `available` cells: each flexible
/// column gets its rounded share of the missing width, the last one the rest.
pub open spec fn expand_spec(cols: Seq<Column>, w: Seq<usize>, available: nat) -> Seq<usize> {
    let t = total(w);
    let ratios = flex_ratios(cols, w, available);
    if t >= available || total(ratios) == 0 {
        w
    } else {
        distribute(w, ratios, total(ratios), (available - t) as nat, count_pos(ratios), w.len()).0
    }
}

/// The inputs on which growing by ratios computes without overflow.
pub open spec fn expand_ok(cols: Seq<Column>, w: Seq<usize>, available: nat) -> bool {
    let t = total(w);
    let ratios = flex_ratios(cols, w, available);
    &&& t <= usize::MAX
    &&& total(ratios) <= usize::MAX
    &&& (t < available && total(ratios) > 0) ==> distribute_ok(w, ratios, total(ratios), (available - t) as nat, count_pos(ratios))
}

/// The weights for growing by size: each width, at least 1.
pub open spec fn size_weights(w: Seq<usize>) -> Seq<usize> {
    Seq::new(w.len(), |i: int| if w[i] > 0 { w[i] } else { 1usize })
}

/// Widths grown in proportion to their sizes to fill `available` cells; the
/// last column gets the rest.
pub open spec fn weights_spec(w: Seq<usize>, available: nat) -> Seq<usize> {
    let t = total(w);
    let weights = size_weights(w);
    if t >= available || total(weights) == 0 {
        w
    } else {
        distribute(w, weights, total(weights), (available - t) as nat, w.len(), w.len()).0
    }
}

/// The inputs on which growing by size computes without overflow.
pub open spec fn weights_ok(w: Seq<usize>, available: nat) -> bool {
    let t = total(w);
    let weights = size_weights(w);
    &&& t <= usize::MAX
    &&& total(weights) <= usize::MAX
    &&& (t < available && total(weights) > 0) ==> distribute_ok(w, weights, total(weights), (available - t) as nat, w.len())
}

/// Every term of a sum is at most the sum.
pub proof fn lemma_terms_within_total(s: Seq<usize>)
    ensures
        forall|i: int| 0 <= i < s.len() ==> #[trigger] s[i] <= total(s),
{
    assert forall|i: int| 0 <= i < s.len() implies #[trigger] s[i] <= total(s) by {
        lemma_total_element(s, i);
    }
}

impl Table {
    /// Expand column widths by their ratios to fill available space (see
    /// `expand_spec`).
    pub fn expand_widths(&self, widths: &[usize], available: usize) -> (r: Vec<usize>)
        requires
            widths@.len() == self@.columns.len(),
            expand_ok(self@.columns, widths@, available as nat),
        ensures
            r@ == expand_spec(self@.columns, widths@, available as nat),
    {
        let ghost ratios_spec = flex_ratios(self.columns@, widths@, available as nat);
        let total_w = sum_widths(widths);
        let mut ratios: Vec<usize> = Vec::new();
        let mut i: usize = 0;
        while i < widths.len()
            invariant
                i <= widths@.len(),
                widths@.len() == self.columns@.len(),
                ratios_spec == flex_ratios(self.columns@, widths@, available as nat),
                ratios@ == ratios_spec.take(i as int),
            decreases widths.len() - i,
        {
            let r = match self.columns[i].ratio { Some(r) => r, None => 0 };
            let v = if r > 0 && widths[i] < available { r } else { 0 };
            ratios.push(v);
            i += 1;
            assert(ratios@ =~= ratios_spec.take(i as int));
        }
        assert(ratios@ =~= ratios_spec);
        let total_ratio = sum_widths(ratios.as_slice());
        if total_w >= available || total_ratio == 0 {
            return copy_widths(widths);
        }
        let mut count: usize = 0;
        let mut j: usize = 0;
        while j < ratios.len()
            invariant
                j <= ratios@.len(),
                count == count_pos(ratios@.take(j as int)),
                count <= j,
            decreases ratios.len() - j,
        {
            assert(ratios@.take(j + 1).drop_last() =~= ratios@.take(j as int));
            if ratios[j] > 0 {
                count = count + 1;
            }
            j += 1;
        }
        assert(ratios@.take(ratios@.len() as int) =~= ratios@);
        proof {
            lemma_terms_within_total(ratios@);
        }
        distribute_exec(widths, &ratios, total_ratio, available - total_w, count)
    }

    /// Expand column widths in proportion to their sizes to fill available
    /// space (see `weights_spec`).
    pub fn expand_widths_by_weights(&self, widths: &[usize], available: usize) -> (r: Vec<usize>)
        requires
            weights_ok(widths@, available as nat),
        ensures
            r@ == weights_spec(widths@, available as nat),
    {
        let ghost ws = size_weights(widths@);
        let total_w = sum_widths(widths);
        let mut weights: Vec<usize> = Vec::new();
        let mut i: usize = 0;
        while i < widths.len()
            invariant
                i <= widths@.len(),
                ws == size_weights(widths@),
                weights@ == ws.take(i as int),
            decreases widths.len() - i,
        {
            let v = if widths[i] > 0 { widths[i] } else { 1 };
            weights.push(v);
            i += 1;
            assert(weights@ =~= ws.take(i as int));
        }
        assert(weights@ =~= ws);
        let total_weight = sum_widths(weights.as_slice());
        if total_w >= available || total_weight == 0 {
            return copy_widths(widths);
        }
        proof {
            lemma_terms_within_total(weights@);
        }
        distribute_exec(widths, &weights, total_weight, available - total_w, widths.len())
    }
}

/// Every header, footer and cell text has a width the machine can count.
pub open spec fn texts_fit(cols: Seq<Column>, rows: Seq<Row>) -> bool {
    &&& forall|i: int| 0 <= i < cols.len() ==> cells((#[trigger] cols[i]).header@.plain) <= usize::MAX
        && cells(cols[i].footer@.plain) <= usize::MAX
    &&& forall|r: int, c: int| 0 <= r < rows.len() && 0 <= c < rows[r].cells@.len() ==>
        cells((#[trigger] rows[r].cells@[c]).content@.plain) <= usize::MAX
}

/// The widest cell in column `i` over the rows that have one.
pub open spec fn col_cell_max(rows: Seq<Row>, i: int) -> nat
    decreases rows.len(),
{
    if rows.len() == 0 {
        0
    } else {
        let prev = col_cell_max(rows.drop_last(), i);
        let r = rows.last();
        if 0 <= i < r.cells@.len() { max_nat(prev, cells(r.cells@[i].content@.plain)) } else { prev }
    }
}

/// The natural width of column `i`: its fixed width where it has one;
/// otherwise the widest of its header, footer and cells, at least its minimum
/// (1 by default) and at most its maximum.
pub open spec fn natural_width(col: Column, rows: Seq<Row>, i: int) -> usize {
    match col.width {
        Some(w) => w,
        None => {
            let m = max_nat(max_nat(cells(col.header@.plain), cells(col.footer@.plain)), col_cell_max(rows, i));
            let lo = match col.min_width { Some(x) => x as nat, None => 1nat };
            let hi = match col.max_width { Some(x) => x as nat, None => usize::MAX as nat };
            min_nat(max_nat(m, lo), hi) as usize
        },
    }
}

/// The natural widths of all columns.
pub open spec fn natural_widths(cols: Seq<Column>, rows: Seq<Row>) -> Seq<usize> {
    Seq::new(cols.len(), |i: int| natural_width(cols[i], rows, i))
}

/// The cells taken by borders, separators and edge padding.
pub open spec fn overhead(t: TableModel) -> int {
    let n = t.columns.len();
    let border = if t.show_edge { 2int } else { 0int };
    let sep = if n > 1 {
        if t.collapse_padding { n - 1 } else { (n - 1) * (1 + t.padding.0 * 2) }
    } else {
        0int
    };
    let edge = if t.pad_edge { t.padding.0 * 2 } else { 0int };
    border + sep + edge
}

/// The table's own width limit within `max_width`.
pub open spec fn base_max(t: TableModel, max_width: nat) -> nat {
    let w = match t.width { Some(w) => w as nat, None => max_width };
    min_nat(w, max_width)
}

/// The cells left for column contents.
pub open spec fn calc_available(t: TableModel, max_width: nat) -> nat {
    sat_sub(base_max(t, max_width) as int, overhead(t))
}

/// The natural widths, shrunk to the available cells.
pub open spec fn calc_collapsed(t: TableModel, max_width: nat) -> Seq<usize> {
    collapse_spec(natural_widths(t.columns, t.rows), col_mins(t.columns), calc_available(t, max_width))
}

/// The width to grow to, and whether to grow: a table that expands or has a
/// fixed width grows to the available cells; one with a minimum width grows
/// to that minimum where its columns are narrower.
pub open spec fn calc_target(t: TableModel, max_width: nat) -> (nat, bool) {
    let total_w = total(calc_collapsed(t, max_width));
    let available = calc_available(t, max_width);
    let should = t.expand || t.width is Some;
    if !should && t.min_width is Some {
        let min_table = min_nat(t.min_width->0 as nat, base_max(t, max_width));
        let min_available = sat_sub(min_table as int, overhead(t));
        if total_w < min_available { (min_available, true) } else { (available, should) }
    } else {
        (available, should)
    }
}

/// Whether some column has a positive ratio.
pub open spec fn has_ratio(cols: Seq<Column>) -> bool {
    exists|i: int| 0 <= i < cols.len() && ratio_of(#[trigger] cols[i]) > 0
}

/// The column widths of a table rendered within `max_width` cells: natural
/// widths, shrunk to the available cells, then grown by ratios (or by size
/// for a table with a fixed or minimum width) up to the target width.
pub open spec fn calculate_widths_spec(t: TableModel, max_width: nat) -> Seq<usize> {
    if t.columns.len() == 0 {
        Seq::empty()
    } else {
        let w = calc_collapsed(t, max_width);
        let (target, should) = calc_target(t, max_width);
        if should && total(w) < target {
            if has_ratio(t.columns) {
                expand_spec(t.columns, w, target)
            } else if t.width is Some || t.min_width is Some {
                weights_spec(w, target)
            } else {
                w
            }
        } else {
            w
        }
    }
}

/// The inputs on which the width calculation computes without overflow.
pub open spec fn calc_ok(t: TableModel, max_width: nat) -> bool {
    let w = calc_collapsed(t, max_width);
    let (target, should) = calc_target(t, max_width);
    &&& texts_fit(t.columns, t.rows)
    &&& overhead(t) <= usize::MAX
    &&& collapse_ok(natural_widths(t.columns, t.rows), col_mins(t.columns), calc_available(t, max_width))
    &&& (should && total(w) < target && has_ratio(t.columns)) ==> expand_ok(t.columns, w, target)
    &&& (should && total(w) < target && !has_ratio(t.columns) && (t.width is Some || t.min_width is Some))
        ==> weights_ok(w, target)
}

/// Collapsing keeps the number of widths and does not raise their sum.
pub proof fn lemma_collapse_shape(w: Seq<usize>, m: Seq<usize>, available: nat)
    requires
        m.len() == w.len(),
    ensures
        collapse_spec(w, m, available).len() == w.len(),
{
    let t = total(w);
    if t > available {
        let excess = (t - available) as nat;
        let ts = total(shrink_of(w, m));
        if ts != 0 {
            let r = reduced_widths(w, m, excess, ts);
            let nt = total(r);
            if nt > available {
                lemma_fixup_len(r, m, (nt - available) as nat, r.len());
            }
        }
    }
}

/// The fix-up keeps the number of widths.
pub proof fn lemma_fixup_len(r: Seq<usize>, m: Seq<usize>, diff: nat, k: nat)
    ensures
        fixup(r, m, diff, k).len() == r.len(),
    decreases k,
{
    if k > 0 && diff > 0 && k <= r.len() {
        let i = k - 1;
        if r[i] > m[i] {
            let c = min_nat((r[i] - m[i]) as nat, diff);
            lemma_fixup_len(r.update(i, (r[i] - c) as usize), m, (diff - c) as nat, (k - 1) as nat);
        } else {
            lemma_fixup_len(r, m, diff, (k - 1) as nat);
        }
    }
}

impl Table {
    /// The natural width of column `i` (see `natural_width`).
    fn natural_column_width(&self, i: usize) -> (w: usize)
        requires
            i < self.columns@.len(),
            texts_fit(self.columns@, self.rows@),
        ensures
            w == natural_width(self.columns@[i as int], self.rows@, i as int),
    {
        let col = &self.columns[i];
        if let Some(fixed) = col.width {
            return fixed;
        }
        let hw = col.header_width();
        let fw = col.footer_width();
        let mut max_w = if hw > fw { hw } else { fw };
        let ghost head = max_w as nat;
        let mut r: usize = 0;
        while r < self.rows.len()
            invariant
                r <= self.rows@.len(),
                i < self.columns@.len(),
                texts_fit(self.columns@, self.rows@),
                max_w as nat == max_nat(head, col_cell_max(self.rows@.take(r as int), i as int)),
            decreases self.rows.len() - r,
        {
            proof {
                assert(self.rows@.take(r + 1).drop_last() =~= self.rows@.take(r as int));
                assert(self.rows@.take(r + 1).last() == self.rows@[r as int]);
            }
            let row = &self.rows[r];
            if i < row.cells.len() {
                assert(cells(self.rows@[r as int].cells@[i as int].content@.plain) <= usize::MAX);
                let cw = row.cells[i].width();
                if cw > max_w {
                    max_w = cw;
                }
            }
            r += 1;
        }
        assert(self.rows@.take(self.rows@.len() as int) =~= self.rows@);
        let lo = match col.min_width { Some(x) => x, None => 1 };
        let hi = match col.max_width { Some(x) => x, None => usize::MAX };
        let v = if max_w > lo { max_w } else { lo };
        if v < hi { v } else { hi }
    }

    /// Calculate column widths for rendering within `max_width` cells (see
    /// `calculate_widths_spec`).
    pub fn calculate_widths(&self, max_width: usize) -> (r: Vec<usize>)
        requires
            calc_ok(self@, max_width as nat),
        ensures
            r@ == calculate_widths_spec(self@, max_width as nat),
    {
        let ghost t = self@;
        let n = self.columns.len();
        if n == 0 {
            return Vec::new();
        }
        let base = match self.width { Some(w) => if w < max_width { w } else { max_width }, None => max_width };
        let border_width: usize = if self.show_edge { 2 } else { 0 };
        let separator_width: usize = if n > 1 {
            if self.collapse_padding {
                n - 1
            } else {
                assert((n - 1) * (1 + self.padding.0 * 2) <= usize::MAX);
                assert(1 + self.padding.0 * 2 <= (n - 1) * (1 + self.padding.0 * 2)) by (nonlinear_arith)
                    requires n > 1;
                (n - 1) * (1 + self.padding.0 * 2)
            }
        } else {
            0
        };
        let edge_padding: usize = if self.pad_edge { self.padding.0 * 2 } else { 0 };
        let overhead_cells = border_width + separator_width + edge_padding;
        assert(overhead_cells == overhead(t));
        let available = if base > overhead_cells { base - overhead_cells } else { 0 };
        let ghost nw = natural_widths(self.columns@, self.rows@);
        let mut natural: Vec<usize> = Vec::new();
        let mut i: usize = 0;
        while i < n
            invariant
                i <= n,
                n == self.columns@.len(),
                t == self@,
                texts_fit(self.columns@, self.rows@),
                nw == natural_widths(self.columns@, self.rows@),
                natural@ == nw.take(i as int),
            decreases n - i,
        {
            let w = self.natural_column_width(i);
            natural.push(w);
            i += 1;
            assert(natural@ =~= nw.take(i as int));
        }
        assert(natural@ =~= nw);
        let mut widths = self.collapse_widths(natural.as_slice(), available);
        proof {
            lemma_collapse_shape(nw, col_mins(t.columns), available as nat);
        }
        assert(widths@ == calc_collapsed(t, max_width as nat));
        let total_w = sum_collapsed(&widths, Ghost(t), max_width);
        let mut target_available = available;
        let mut should_expand = self.expand || self.width.is_some();
        if !should_expand {
            if let Some(min_width) = self.min_width {
                let min_table = if min_width < base { min_width } else { base };
                let min_available = if min_table > overhead_cells { min_table - overhead_cells } else { 0 };
                if total_w < min_available {
                    target_available = min_available;
                    should_expand = true;
                }
            }
        }
        assert(target_available == calc_target(t, max_width as nat).0);
        assert(should_expand == calc_target(t, max_width as nat).1);
        if should_expand && total_w < target_available {
            let mut any_ratio = false;
            let mut k: usize = 0;
            while k < n
                invariant
                    k <= n,
                    n == self.columns@.len(),
                    any_ratio == exists|j: int| 0 <= j < k && ratio_of(#[trigger] self.columns@[j]) > 0,
                decreases n - k,
            {
                let r = match self.columns[k].ratio { Some(r) => r, None => 0 };
                if r > 0 {
                    any_ratio = true;
                }
                k += 1;
            }
            if any_ratio {
                widths = self.expand_widths(widths.as_slice(), target_available);
            } else if self.width.is_some() || self.min_width.is_some() {
                widths = self.expand_widths_by_weights(widths.as_slice(), target_available);
            }
        }
        widths
    }
}

/// The sum of the collapsed widths, which fits because collapsing does not
/// raise the sum of the natural widths.
fn sum_collapsed(widths: &Vec<usize>, Ghost(t): Ghost<TableModel>, max_width: usize) -> (r: usize)
    requires
        widths@ == calc_collapsed(t, max_width as nat),
        calc_ok(t, max_width as nat),
    ensures
        r == total(widths@),
{
    proof {
        lemma_collapse_total(natural_widths(t.columns, t.rows), col_mins(t.columns), calc_available(t, max_width as nat));
    }
    sum_widths(widths.as_slice())
}

/// Collapsing never raises the sum of the widths.
pub proof fn lemma_collapse_total(w: Seq<usize>, m: Seq<usize>, available: nat)
    requires
        m.len() == w.len(),
    ensures
        total(collapse_spec(w, m, available)) <= total(w),
{
    let t = total(w);
    if t > available {
        let excess = (t - available) as nat;
        let ts = total(shrink_of(w, m));
        if ts != 0 {
            let r = reduced_widths(w, m, excess, ts);
            lemma_reduced_total(w, m, excess, ts);
            let nt = total(r);
            if nt > available {
                lemma_fixup_total(r, m, (nt - available) as nat, r.len());
            }
        }
    }
}

/// The fix-up never raises the sum of the widths.
pub proof fn lemma_fixup_total(r: Seq<usize>, m: Seq<usize>, diff: nat, k: nat)
    ensures
        total(fixup(r, m, diff, k)) <= total(r),
    decreases k,
{
    if k > 0 && diff > 0 && k <= r.len() {
        let i = k - 1;
        if r[i] > m[i] {
            let c = min_nat((r[i] - m[i]) as nat, diff);
            let r2 = r.update(i, (r[i] - c) as usize);
            lemma_total_update(r, i, (r[i] - c) as usize);
            lemma_fixup_total(r2, m, (diff - c) as nat, (k - 1) as nat);
        } else {
            lemma_fixup_total(r, m, diff, (k - 1) as nat);
        }
    }
}

/// How far the first `k` widths are above their minimums, in all.
pub open spec fn slack(r: Seq<usize>, m: Seq<usize>, k: nat) -> nat
    decreases k,
{
    if k == 0 || k > r.len() { 0 } else { slack(r, m, (k - 1) as nat) + sat_sub(r[k - 1] as int, m[k - 1] as int) }
}

/// The reductions of `reduced_widths`, each at most the room to shrink.
pub open spec fn reductions(w: Seq<usize>, m: Seq<usize>, excess: nat, ts: nat) -> Seq<usize> {
    Seq::new(w.len(), |i: int| {
        let s = sat_sub(w[i] as int, m[i] as int);
        if s > 0 { (s * excess / ts) as usize } else { 0usize }
    })
}

/// Slack ignores changes at or after the `k`-th width.
proof fn lemma_slack_update(r: Seq<usize>, m: Seq<usize>, k: nat, i: int, v: usize)
    requires
        k <= i < r.len(),
    ensures
        slack(r.update(i, v), m, k) == slack(r, m, k),
    decreases k,
{
    if k > 0 {
        lemma_slack_update(r, m, (k - 1) as nat, i, v);
    }
}

/// The fix-up takes from the sum as much of `diff` as the slack allows.
proof fn lemma_fixup_takes(r: Seq<usize>, m: Seq<usize>, diff: nat, k: nat)
    requires
        k <= r.len(),
        m.len() == r.len(),
    ensures
        total(fixup(r, m, diff, k)) + min_nat(diff, slack(r, m, k)) == total(r),
    decreases k,
{
    if k > 0 && diff > 0 {
        let i = k - 1;
        if r[i] > m[i] {
            let c = min_nat((r[i] - m[i]) as nat, diff);
            let r2 = r.update(i, (r[i] - c) as usize);
            lemma_fixup_takes(r2, m, (diff - c) as nat, (k - 1) as nat);
            lemma_slack_update(r, m, (k - 1) as nat, i, (r[i] - c) as usize);
            lemma_total_update(r, i, (r[i] - c) as usize);
        } else {
            lemma_fixup_takes(r, m, diff, (k - 1) as nat);
        }
    }
}

/// Reducing takes exactly the reductions off the widths and off the room to
/// shrink.
proof fn lemma_reduced_accounts(w: Seq<usize>, m: Seq<usize>, excess: nat, ts: nat)
    requires
        m.len() == w.len(),
        0 < ts,
        excess <= ts,
    ensures
        total(reduced_widths(w, m, excess, ts)) + total(reductions(w, m, excess, ts)) == total(w),
        slack(reduced_widths(w, m, excess, ts), m, w.len()) + total(reductions(w, m, excess, ts))
            == total(shrink_of(w, m)),
    decreases w.len(),
{
    if w.len() > 0 {
        let n = w.len() - 1;
        let wd = w.drop_last();
        let md = m.drop_last();
        let r = reduced_widths(w, m, excess, ts);
        let red = reductions(w, m, excess, ts);
        assert(r.drop_last() =~= reduced_widths(wd, md, excess, ts));
        assert(red.drop_last() =~= reductions(wd, md, excess, ts));
        assert(shrink_of(w, m).drop_last() =~= shrink_of(wd, md));
        lemma_reduced_accounts(wd, md, excess, ts);
        lemma_slack_prefix_same(r, reduced_widths(wd, md, excess, ts), m, md, n as nat);
        let sh = sat_sub(w[n] as int, m[n] as int);
        if sh > 0 {
            assert(sh * excess / ts <= sh) by (nonlinear_arith)
                requires
                    excess <= ts,
                    0 < ts,
            {
                assert(sh * excess <= sh * ts);
            }
        }
    }
}

/// Slack over a prefix depends only on that prefix.
proof fn lemma_slack_prefix_same(r: Seq<usize>, r2: Seq<usize>, m: Seq<usize>, m2: Seq<usize>, k: nat)
    requires
        k <= r2.len(),
        k <= r.len(),
        k <= m2.len(),
        k <= m.len(),
        forall|i: int| 0 <= i < k ==> r[i] == r2[i] && m[i] == m2[i],
    ensures
        slack(r, m, k) == slack(r2, m2, k),
    decreases k,
{
    if k > 0 {
        lemma_slack_prefix_same(r, r2, m, m2, (k - 1) as nat);
    }
}

/// Collapsing fits the widths into the available cells whenever the columns
/// have room enough to shrink above their minimums.
pub proof fn law_collapse_fits(w: Seq<usize>, m: Seq<usize>, available: nat)
    requires
        m.len() == w.len(),
        total(shrink_of(w, m)) + available >= total(w),
    ensures
        total(collapse_spec(w, m, available)) <= available,
{
    let t = total(w);
    if t > available {
        let excess = (t - available) as nat;
        let ts = total(shrink_of(w, m));
        let r = reduced_widths(w, m, excess, ts);
        lemma_reduced_accounts(w, m, excess, ts);
        let nt = total(r);
        if nt > available {
            lemma_fixup_takes(r, m, (nt - available) as nat, r.len());
        }
    }
}

// Rendering.

/// `s` where `b` holds, else nothing.
pub open spec fn only_if<A>(b: bool, s: Seq<A>) -> Seq<A> {
    if b { s } else { Seq::empty() }
}

/// Whether column `i` has padding on its left: only the first column, at a
/// padded edge, where padding collapses; otherwise every column but an
/// unpadded first one.
pub open spec fn pads_left(t: TableModel, i: nat) -> bool {
    if t.collapse_padding { t.pad_edge && i == 0 } else { t.pad_edge || i > 0 }
}

/// Whether column `i` of `n` has padding on its right.
pub open spec fn pads_right(t: TableModel, n: nat, i: nat) -> bool {
    if t.collapse_padding { t.pad_edge && i + 1 == n } else { t.pad_edge || i + 1 < n }
}

/// Column `i` of a separator line drawn with `chars` (left edge, fill,
/// divider, right edge): its padding and width in fill characters, then a
/// divider before the next column.
pub open spec fn sep_column(t: TableModel, chars: [char; 4], w: Seq<usize>, i: nat) -> Seq<char> {
    let pad = repeat_spec(chars[1], t.padding.0 as nat);
    only_if(pads_left(t, i), pad) + repeat_spec(chars[1], w[i as int] as nat) + only_if(
        pads_right(t, w.len(), i),
        pad,
    ) + only_if(i + 1 < w.len(), seq![chars[2]])
}

/// The first `k` columns of a separator line.
pub open spec fn sep_columns(t: TableModel, chars: [char; 4], w: Seq<usize>, k: nat) -> Seq<char>
    decreases k,
{
    if k == 0 {
        Seq::empty()
    } else {
        sep_columns(t, chars, w, (k - 1) as nat) + sep_column(t, chars, w, (k - 1) as nat)
    }
}

/// A separator line: the columns between the edges, where edges are shown.
pub open spec fn separator_spec(t: TableModel, chars: [char; 4], w: Seq<usize>) -> Seq<char> {
    only_if(t.show_edge, seq![chars[0]]) + sep_columns(t, chars, w, w.len()) + only_if(
        t.show_edge,
        seq![chars[3]],
    )
}

/// A separator line as segments: the line in the border style and a newline.
pub open spec fn sep_line(t: TableModel, b: BoxChars, w: Seq<usize>, level: RowLevel) -> Seq<SegmentModel> {
    seq![plain_model(separator_spec(t, row_chars_spec(b, level), w), Some(t.border_style)), newline_seg()]
}

/// Spaces before and after a cell's content: all after by default, all
/// before when right-justified, split evenly (the odd one after) when
/// centered.
pub open spec fn cell_spaces(j: JustifyMethod, space: nat) -> (nat, nat) {
    match j {
        JustifyMethod::Right => (space, 0),
        JustifyMethod::Center => (space / 2, (space - space / 2) as nat),
        _ => (0, space),
    }
}

/// Spaces before and after a title or caption: as for a cell, but full
/// justification centers too.
pub open spec fn label_spaces(j: JustifyMethod, space: nat) -> (nat, nat) {
    match j {
        JustifyMethod::Right => (space, 0),
        JustifyMethod::Center | JustifyMethod::Full => (space / 2, (space - space / 2) as nat),
        _ => (0, space),
    }
}

/// The style of a cell: the table's style, then the row's, the column's, the
/// cell's own and the text's, each taking precedence over those before it.
pub open spec fn cell_style(
    t: TableModel,
    row_style: StyleModel,
    col_style: StyleModel,
    ov: Option<StyleModel>,
    text_style: StyleModel,
) -> StyleModel {
    let base = combine_model(combine_model(t.style, row_style), col_style);
    let s = match ov {
        Some(o) => combine_model(base, o),
        None => base,
    };
    combine_model(s, text_style)
}

/// The segments of column `i` of a row line: padding, the text cut by the
/// column's overflow method and justified within the column's width, padding,
/// and a divider before the next column.
pub open spec fn cell_segs(
    t: TableModel,
    b: BoxChars,
    w: Seq<usize>,
    i: nat,
    text: TextModel,
    col_style: StyleModel,
    row_style: StyleModel,
    ov: Option<StyleModel>,
) -> Seq<SegmentModel> {
    let st = cell_style(t, row_style, col_style, ov, text.style);
    let col = t.columns[i as int];
    let shown = truncated(text.plain, w[i as int] as nat, col.overflow);
    let sp = cell_spaces(col.justify, sat_sub(w[i as int] as int, cells(shown) as int));
    cell_layout(t, b, w.len(), i, shown, st, sp.0, sp.1)
}

/// Column `i` of `n` laid out: padding, spaces, the text, spaces, padding,
/// and a divider before the next column.
pub open spec fn cell_layout(
    t: TableModel,
    b: BoxChars,
    n: nat,
    i: nat,
    shown: Seq<char>,
    st: StyleModel,
    left: nat,
    right: nat,
) -> Seq<SegmentModel> {
    let pad = seq![pad_seg(t.padding.0 as nat, Some(st))];
    only_if(pads_left(t, i), pad) + only_if(left > 0, seq![pad_seg(left, Some(st))]) + text_segs(shown, st)
        + only_if(right > 0, seq![pad_seg(right, Some(st))]) + only_if(pads_right(t, n, i), pad)
        + only_if(i + 1 < n, seq![char_seg(b.head[2], t.border_style)])
}

/// The first `k` cells of a row line.
pub open spec fn row_cells(
    t: TableModel,
    b: BoxChars,
    w: Seq<usize>,
    texts: Seq<TextModel>,
    styles: Seq<StyleModel>,
    row_style: StyleModel,
    ovs: Seq<Option<StyleModel>>,
    k: nat,
) -> Seq<SegmentModel>
    decreases k,
{
    if k == 0 {
        Seq::empty()
    } else {
        row_cells(t, b, w, texts, styles, row_style, ovs, (k - 1) as nat) + cell_segs(
            t,
            b,
            w,
            (k - 1) as nat,
            texts[k - 1],
            styles[k - 1],
            row_style,
            ovs[k - 1],
        )
    }
}

/// One line of a row: the left edge, the cells, the right edge and a newline.
pub open spec fn row_line(
    t: TableModel,
    b: BoxChars,
    w: Seq<usize>,
    texts: Seq<TextModel>,
    styles: Seq<StyleModel>,
    row_style: StyleModel,
    ovs: Seq<Option<StyleModel>>,
) -> Seq<SegmentModel> {
    only_if(t.show_edge, seq![char_seg(b.head[0], t.border_style)]) + row_cells(
        t,
        b,
        w,
        texts,
        styles,
        row_style,
        ovs,
        w.len(),
    ) + only_if(t.show_edge, seq![char_seg(b.head[3], t.border_style)]) + seq![newline_seg()]
}

/// `n` copies of a run of segments.
pub open spec fn repeat_segs(s: Seq<SegmentModel>, n: nat) -> Seq<SegmentModel>
    decreases n,
{
    if n == 0 { Seq::empty() } else { repeat_segs(s, (n - 1) as nat) + s }
}

/// An empty text with no style.
pub open spec fn blank_text() -> TextModel {
    TextModel { plain: Seq::empty(), style: empty_style_model(true) }
}

/// `n` empty texts.
pub open spec fn blank_texts(n: nat) -> Seq<TextModel> {
    Seq::new(n, |_i: int| blank_text())
}

/// `count` blank lines with a row's borders and cell styles.
pub open spec fn blank_lines(
    t: TableModel,
    b: BoxChars,
    w: Seq<usize>,
    styles: Seq<StyleModel>,
    row_style: StyleModel,
    ovs: Seq<Option<StyleModel>>,
    count: nat,
) -> Seq<SegmentModel> {
    repeat_segs(row_line(t, b, w, blank_texts(w.len()), styles, row_style, ovs), count)
}

/// A row line with the table's vertical padding as blank lines above and below.
pub open spec fn padded_row(
    t: TableModel,
    b: BoxChars,
    w: Seq<usize>,
    texts: Seq<TextModel>,
    styles: Seq<StyleModel>,
    row_style: StyleModel,
    ovs: Seq<Option<StyleModel>>,
) -> Seq<SegmentModel> {
    let pad = blank_lines(t, b, w, styles, row_style, ovs, t.padding.1 as nat);
    pad + row_line(t, b, w, texts, styles, row_style, ovs) + pad
}

/// The values of a sequence of texts.
pub open spec fn text_views(v: Seq<Text>) -> Seq<TextModel> {
    v.map_values(|x: Text| x@)
}

/// The values of a sequence of optional styles.
pub open spec fn opt_style_views(v: Seq<Option<Style>>) -> Seq<Option<StyleModel>> {
    v.map_values(|o: Option<Style>| opt_style_model(o))
}

/// The header texts of the columns.
pub open spec fn header_texts(cols: Seq<Column>) -> Seq<TextModel> {
    Seq::new(cols.len(), |i: int| cols[i].header@)
}

/// The header styles of the columns.
pub open spec fn header_styles(cols: Seq<Column>) -> Seq<StyleModel> {
    Seq::new(cols.len(), |i: int| cols[i].header_style@)
}

/// The footer texts of the columns.
pub open spec fn footer_texts(cols: Seq<Column>) -> Seq<TextModel> {
    Seq::new(cols.len(), |i: int| cols[i].footer@)
}

/// The footer styles of the columns.
pub open spec fn footer_styles(cols: Seq<Column>) -> Seq<StyleModel> {
    Seq::new(cols.len(), |i: int| cols[i].footer_style@)
}

/// The cell styles of the columns.
pub open spec fn body_styles(cols: Seq<Column>) -> Seq<StyleModel> {
    Seq::new(cols.len(), |i: int| cols[i].style@)
}

/// No style overrides for `n` cells.
pub open spec fn no_overrides(n: nat) -> Seq<Option<StyleModel>> {
    Seq::new(n, |_i: int| None::<StyleModel>)
}

/// The texts of a row in `n` columns, empty where the row has fewer cells.
pub open spec fn row_texts(row: Row, n: nat) -> Seq<TextModel> {
    Seq::new(n, |i: int| if i < row.cells@.len() { row.cells@[i].content@ } else { blank_text() })
}

/// The style overrides of a row's cells in `n` columns.
pub open spec fn row_overrides(row: Row, n: nat) -> Seq<Option<StyleModel>> {
    Seq::new(n, |i: int| if i < row.cells@.len() { opt_style_model(row.cells@[i].style) } else { None })
}

/// The style of row `r`: the alternating row styles in turn where there are
/// any, else the row's own.
pub open spec fn row_style_of(t: TableModel, r: int) -> StyleModel {
    if t.row_styles.len() == 0 { t.rows[r].style@ } else { t.row_styles[r % (t.row_styles.len() as int)] }
}

/// Whether rows or a footer come after the header or row `r`.
pub open spec fn more_below(t: TableModel, r: int) -> bool {
    r + 1 < t.rows.len() || (t.show_footer && t.columns.len() > 0)
}

/// The header: its padded row, leading lines where rows or a footer follow,
/// and the separator below it; nothing where it is hidden or there are no
/// columns.
pub open spec fn header_part(t: TableModel, b: BoxChars, w: Seq<usize>) -> Seq<SegmentModel> {
    let n = t.columns.len();
    let styles = header_styles(t.columns);
    if t.show_header && n > 0 {
        padded_row(t, b, w, header_texts(t.columns), styles, t.header_style, no_overrides(n)) + only_if(
            t.leading > 0 && more_below(t, -1),
            blank_lines(t, b, w, styles, t.header_style, no_overrides(n), t.leading as nat),
        ) + sep_line(t, b, w, RowLevel::HeadRow)
    } else {
        Seq::empty()
    }
}

/// Row `r`: its padded row, leading lines where more follows, and a
/// separator before the next row where lines are shown or the row ends a
/// section.
pub open spec fn row_block(t: TableModel, b: BoxChars, w: Seq<usize>, r: int) -> Seq<SegmentModel> {
    let n = t.columns.len();
    let row = t.rows[r];
    let styles = body_styles(t.columns);
    let rs = row_style_of(t, r);
    let ovs = row_overrides(row, n);
    padded_row(t, b, w, row_texts(row, n), styles, rs, ovs) + only_if(
        t.leading > 0 && more_below(t, r),
        blank_lines(t, b, w, styles, rs, ovs, t.leading as nat),
    ) + only_if((t.show_lines || row.end_section) && r + 1 < t.rows.len(), sep_line(t, b, w, RowLevel::Row))
}

/// The first `k` rows.
pub open spec fn body_part(t: TableModel, b: BoxChars, w: Seq<usize>, k: nat) -> Seq<SegmentModel>
    decreases k,
{
    if k == 0 { Seq::empty() } else { body_part(t, b, w, (k - 1) as nat) + row_block(t, b, w, k - 1) }
}

/// The footer: the separator above it and its padded row, where it is shown
/// and there are columns.
pub open spec fn footer_part(t: TableModel, b: BoxChars, w: Seq<usize>) -> Seq<SegmentModel> {
    let n = t.columns.len();
    if t.show_footer && n > 0 {
        sep_line(t, b, w, RowLevel::FootRow) + padded_row(
            t,
            b,
            w,
            footer_texts(t.columns),
            footer_styles(t.columns),
            t.footer_style,
            no_overrides(n),
        )
    } else {
        Seq::empty()
    }
}

/// A title or caption `width` cells wide: the text cropped to the width and
/// justified, the text's style over the label style.
pub open spec fn label_segs(text: TextModel, width: nat, style: StyleModel, j: JustifyMethod) -> Seq<SegmentModel> {
    if width == 0 {
        Seq::empty()
    } else {
        let shown = truncated(text.plain, width, OverflowMethod::Crop);
        let sp = label_spaces(j, sat_sub(width as int, cells(shown) as int));
        only_if(sp.0 > 0, seq![pad_seg(sp.0, Some(style))]) + text_segs(shown, combine_model(style, text.style))
            + only_if(sp.1 > 0, seq![pad_seg(sp.1, Some(style))])
    }
}

/// The width of a rendered line: the column widths and the overhead of
/// borders, dividers and padding.
pub open spec fn row_width(t: TableModel, w: Seq<usize>) -> nat {
    total(w) + overhead(t) as nat
}

/// A title or caption line, where there is one.
pub open spec fn label_part(
    t: TableModel,
    w: Seq<usize>,
    label: Option<TextModel>,
    style: StyleModel,
    j: JustifyMethod,
) -> Seq<SegmentModel> {
    match label {
        Some(l) => label_segs(l, row_width(t, w), style, j) + seq![newline_seg()],
        None => Seq::empty(),
    }
}

/// The box characters a table draws with: ASCII where ASCII-safe rendering
/// is forced on a box that is not ASCII already.
pub open spec fn table_box(t: TableModel) -> BoxChars {
    if t.safe_box && !t.box_style.ascii { ascii_box_spec() } else { t.box_style }
}

/// The table rendered within `max_width` cells: nothing without columns;
/// otherwise the title, the top edge, the header, the rows, the footer, the
/// bottom edge and the caption, each where it is shown.
pub open spec fn render_spec(t: TableModel, max_width: nat) -> Seq<SegmentModel> {
    let w = calculate_widths_spec(t, max_width);
    let b = table_box(t);
    if w.len() == 0 {
        Seq::empty()
    } else {
        label_part(t, w, t.title, t.title_style, t.title_justify) + only_if(
            t.show_edge,
            sep_line(t, b, w, RowLevel::Top),
        ) + header_part(t, b, w) + body_part(t, b, w, t.rows.len()) + footer_part(t, b, w) + only_if(
            t.show_edge,
            sep_line(t, b, w, RowLevel::Bottom),
        ) + label_part(t, w, t.caption, t.caption_style, t.caption_justify)
    }
}

/// The inputs on which rendering computes without overflow: the widths can
/// be computed, and where there is a title or caption, the line width and
/// the width of its text can be counted.
pub open spec fn render_ok(t: TableModel, max_width: nat) -> bool {
    let w = calculate_widths_spec(t, max_width);
    &&& calc_ok(t, max_width)
    &&& (t.title is Some || t.caption is Some) ==> row_width(t, w) <= usize::MAX
    &&& (t.title matches Some(x) ==> cells(x.plain) <= usize::MAX)
    &&& (t.caption matches Some(x) ==> cells(x.plain) <= usize::MAX)
}

/// The widths computed for a table are one per column.
pub proof fn lemma_widths_len(t: TableModel, max_width: nat)
    ensures
        calculate_widths_spec(t, max_width).len() == t.columns.len(),
{
    if t.columns.len() > 0 {
        let nw = natural_widths(t.columns, t.rows);
        let m = col_mins(t.columns);
        let available = calc_available(t, max_width);
        lemma_collapse_shape(nw, m, available);
        let w = calc_collapsed(t, max_width);
        let (target, should) = calc_target(t, max_width);
        if should && total(w) < target {
            if has_ratio(t.columns) {
                let ratios = flex_ratios(t.columns, w, target);
                if !(total(w) >= target || total(ratios) == 0) {
                    lemma_distribute_len(w, ratios, total(ratios), (target - total(w)) as nat, count_pos(ratios), w.len());
                }
            } else if t.width is Some || t.min_width is Some {
                let weights = size_weights(w);
                if !(total(w) >= target || total(weights) == 0) {
                    lemma_distribute_len(w, weights, total(weights), (target - total(w)) as nat, w.len(), w.len());
                }
            }
        }
    }
}

/// Appends a segment where `cond` holds.
fn push_if(v: &mut Vec<Segment>, cond: bool, s: Segment)
    ensures
        segs_model(final(v)@) == segs_model(old(v)@) + only_if(cond, seq![s@]),
{
    let ghost prev = segs_model(v@);
    if cond {
        push_seg(v, s);
        assert(segs_model(v@) =~= prev + only_if(cond, seq![s@]));
    } else {
        assert(segs_model(v@) =~= prev + only_if(cond, seq![s@]));
    }
}

impl Table {
    /// Column `i` of a separator line (see `sep_column`).
    fn separator_column(&self, chars: &[char; 4], widths: &Vec<usize>, i: usize) -> (s: String)
        requires
            i < widths@.len(),
        ensures
            s@ == sep_column(self@, *chars, widths@, i as nat),
    {
        let ghost t = self@;
        let n = widths.len();
        let mut out = String::new();
        let pl = if self.collapse_padding { self.pad_edge && i == 0 } else { self.pad_edge || i > 0 };
        if pl {
            push_repeat(&mut out, chars[1], self.padding.0);
        }
        let ghost a = out@;
        push_repeat(&mut out, chars[1], widths[i]);
        let ghost b = out@;
        let pr = if self.collapse_padding { self.pad_edge && i + 1 == n } else { self.pad_edge || i + 1 < n };
        if pr {
            push_repeat(&mut out, chars[1], self.padding.0);
        }
        let ghost c = out@;
        if i + 1 < n {
            push_char(&mut out, chars[2]);
        }
        proof {
            let pad = repeat_spec(chars[1], t.padding.0 as nat);
            assert(a =~= only_if(pads_left(t, i as nat), pad));
            assert(c =~= b + only_if(pads_right(t, n as nat, i as nat), pad));
            assert(out@ =~= c + only_if(i + 1 < n, seq![chars[2]]));
        }
        out
    }

    /// A separator line for a row level (see `separator_spec`).
    fn separator(&self, b: &BoxChars, widths: &Vec<usize>, level: RowLevel) -> (s: String)
        ensures
            s@ == separator_spec(self@, row_chars_spec(*b, level), widths@),
    {
        let ghost t = self@;
        let chars = b.get_row_chars(level);
        let n = widths.len();
        let mut out = String::new();
        if self.show_edge {
            push_char(&mut out, chars[0]);
        }
        let ghost start = out@;
        let mut i: usize = 0;
        while i < n
            invariant
                i <= n,
                n == widths@.len(),
                t == self@,
                out@ == start + sep_columns(t, *chars, widths@, i as nat),
            decreases n - i,
        {
            let piece = self.separator_column(chars, widths, i);
            push_str(&mut out, piece.as_str());
            assert(sep_columns(t, *chars, widths@, (i + 1) as nat) == sep_columns(t, *chars, widths@, i as nat)
                + sep_column(t, *chars, widths@, i as nat));
            i += 1;
        }
        if self.show_edge {
            push_char(&mut out, chars[3]);
        }
        assert(out@ =~= separator_spec(t, *chars, widths@));
        out
    }

    /// A separator line and a newline, as segments (see `sep_line`).
    fn separator_line(&self, b: &BoxChars, widths: &Vec<usize>, level: RowLevel) -> (r: Vec<Segment>)
        ensures
            segs_model(r@) == sep_line(self@, *b, widths@, level),
    {
        let line = self.separator(b, widths, level);
        let mut v: Vec<Segment> = Vec::new();
        push_seg(&mut v, Segment::new(line.as_str(), Some(self.border_style.clone())));
        push_seg(&mut v, Segment::line());
        assert(segs_model(v@) =~= sep_line(self@, *b, widths@, level));
        v
    }

    /// The text of column `i` cut to `width` cells, in the cell's style (see
    /// `cell_style`), and that style.
    fn cell_content(
        &self,
        i: usize,
        width: usize,
        text: &Text,
        col_style: &Style,
        row_style: &Style,
        ov: &Option<Style>,
    ) -> (r: (Text, Style))
        requires
            i < self@.columns.len(),
            cells(text@.plain) <= usize::MAX,
        ensures
            r.1@ == cell_style(self@, row_style@, col_style@, opt_style_model(*ov), text@.style),
            r.0@ == (TextModel {
                plain: truncated(text@.plain, width as nat, self@.columns[i as int].overflow),
                style: r.1@,
            }),
            cells(r.0@.plain) <= usize::MAX,
    {
        let base = self.style.combine(row_style).combine(col_style);
        let with_ov = match ov {
            Some(o) => base.combine(o),
            None => base,
        };
        let st = with_ov.combine(text.style());
        let mut shown = text.clone();
        shown.set_style(st.clone());
        if shown.cell_len() > width {
            shown.truncate(width, self.columns[i].overflow);
        }
        (shown, st)
    }

    /// Column `i` of `n` laid out (see `cell_layout`).
    fn assemble_cell(
        &self,
        b: &BoxChars,
        n: usize,
        i: usize,
        shown: &Text,
        st: &Style,
        left: usize,
        right: usize,
    ) -> (r: Vec<Segment>)
        requires
            i < n,
            shown@.style == st@,
        ensures
            segs_model(r@) == cell_layout(self@, *b, n as nat, i as nat, shown@.plain, st@, left as nat, right as nat),
    {
        let ghost t = self@;
        let mut out: Vec<Segment> = Vec::new();
        let pl = if self.collapse_padding { self.pad_edge && i == 0 } else { self.pad_edge || i > 0 };
        push_if(&mut out, pl, spaces_segment(self.padding.0, Some(st.clone())));
        assert(segs_model(out@) =~= only_if(pads_left(t, i as nat), seq![pad_seg(t.padding.0 as nat, Some(st@))]));
        push_if(&mut out, left > 0, spaces_segment(left, Some(st.clone())));
        push_segs(&mut out, shown.render());
        push_if(&mut out, right > 0, spaces_segment(right, Some(st.clone())));
        let pr = if self.collapse_padding { self.pad_edge && i + 1 == n } else { self.pad_edge || i + 1 < n };
        push_if(&mut out, pr, spaces_segment(self.padding.0, Some(st.clone())));
        push_if(&mut out, i + 1 < n, char_segment(b.head[2], &self.border_style));
        out
    }

    /// The segments of column `i` of a row line (see `cell_segs`).
    fn cell_segments(
        &self,
        b: &BoxChars,
        widths: &Vec<usize>,
        i: usize,
        text: &Text,
        col_style: &Style,
        row_style: &Style,
        ov: &Option<Style>,
    ) -> (r: Vec<Segment>)
        requires
            i < widths@.len(),
            widths@.len() == self@.columns.len(),
            cells(text@.plain) <= usize::MAX,
        ensures
            segs_model(r@) == cell_segs(
                self@,
                *b,
                widths@,
                i as nat,
                text@,
                col_style@,
                row_style@,
                opt_style_model(*ov),
            ),
    {
        let ghost t = self@;
        let n = widths.len();
        let col = &self.columns[i];
        let width = widths[i];
        let (shown, st) = self.cell_content(i, width, text, col_style, row_style, ov);
        let shown_width = shown.cell_len();
        let space = if width > shown_width { width - shown_width } else { 0 };
        let (left, right) = match col.justify {
            JustifyMethod::Right => (space, 0),
            JustifyMethod::Center => (space / 2, space - space / 2),
            _ => (0, space),
        };
        assert((left as nat, right as nat) == cell_spaces(col.justify, space as nat));
        self.assemble_cell(b, n, i, &shown, &st, left, right)
    }

    /// One line of a row (see `row_line`).
    fn row_content(
        &self,
        b: &BoxChars,
        widths: &Vec<usize>,
        texts: &Vec<Text>,
        styles: &Vec<Style>,
        row_style: &Style,
        ovs: &Vec<Option<Style>>,
    ) -> (r: Vec<Segment>)
        requires
            widths@.len() == self@.columns.len(),
            texts@.len() == widths@.len(),
            styles@.len() == widths@.len(),
            ovs@.len() == widths@.len(),
            forall|k: int| 0 <= k < texts@.len() ==> cells(#[trigger] texts@[k]@.plain) <= usize::MAX,
        ensures
            segs_model(r@) == row_line(
                self@,
                *b,
                widths@,
                text_views(texts@),
                style_views(styles@),
                row_style@,
                opt_style_views(ovs@),
            ),
    {
        let ghost t = self@;
        let ghost tv = text_views(texts@);
        let ghost sv = style_views(styles@);
        let ghost ov = opt_style_views(ovs@);
        let n = widths.len();
        let mut out: Vec<Segment> = Vec::new();
        if self.show_edge {
            push_seg(&mut out, char_segment(b.head[0], &self.border_style));
        }
        let ghost start = segs_model(out@);
        assert(start =~= only_if(t.show_edge, seq![char_seg(b.head[0], t.border_style)]));
        let mut i: usize = 0;
        while i < n
            invariant
                i <= n,
                n == widths@.len(),
                t == self@,
                n == t.columns.len(),
                texts@.len() == n,
                styles@.len() == n,
                ovs@.len() == n,
                tv == text_views(texts@),
                sv == style_views(styles@),
                ov == opt_style_views(ovs@),
                forall|k: int| 0 <= k < texts@.len() ==> cells(#[trigger] texts@[k]@.plain) <= usize::MAX,
                segs_model(out@) == start + row_cells(t, *b, widths@, tv, sv, row_style@, ov, i as nat),
            decreases n - i,
        {
            let ghost before = segs_model(out@);
            let cell = self.cell_segments(b, widths, i, &texts[i], &styles[i], row_style, &ovs[i]);
            push_segs(&mut out, cell);
            assert(tv[i as int] == texts@[i as int]@);
            assert(sv[i as int] == styles@[i as int]@);
            assert(ov[i as int] == opt_style_model(ovs@[i as int]));
            assert(segs_model(out@) =~= start + row_cells(t, *b, widths@, tv, sv, row_style@, ov, (i + 1) as nat));
            i += 1;
        }
        let ghost mid = segs_model(out@);
        if self.show_edge {
            push_seg(&mut out, char_segment(b.head[3], &self.border_style));
        }
        let ghost end = segs_model(out@);
        assert(end =~= mid + only_if(t.show_edge, seq![char_seg(b.head[3], t.border_style)]));
        push_seg(&mut out, Segment::line());
        out
    }

    /// `count` blank lines with a row's borders and styles (see `blank_lines`).
    fn blank_rows(
        &self,
        b: &BoxChars,
        widths: &Vec<usize>,
        styles: &Vec<Style>,
        row_style: &Style,
        ovs: &Vec<Option<Style>>,
        count: usize,
    ) -> (r: Vec<Segment>)
        requires
            widths@.len() == self@.columns.len(),
            styles@.len() == widths@.len(),
            ovs@.len() == widths@.len(),
        ensures
            segs_model(r@) == blank_lines(
                self@,
                *b,
                widths@,
                style_views(styles@),
                row_style@,
                opt_style_views(ovs@),
                count as nat,
            ),
    {
        let ghost t = self@;
        let n = widths.len();
        let mut blanks: Vec<Text> = Vec::new();
        let mut k: usize = 0;
        while k < n
            invariant
                k <= n,
                blanks@.len() == k,
                text_views(blanks@) == blank_texts(k as nat),
                forall|j: int| 0 <= j < blanks@.len() ==> cells(#[trigger] blanks@[j]@.plain) <= usize::MAX,
            decreases n - k,
        {
            let e = Text::empty();
            let ghost prev = blanks@;
            blanks.push(e);
            assert(text_views(blanks@) =~= text_views(prev).push(e@));
            assert(blank_texts((k + 1) as nat) =~= blank_texts(k as nat).push(blank_text()));
            assert(forall|j: int| 0 <= j < blanks@.len() ==> cells(#[trigger] blanks@[j]@.plain) <= usize::MAX) by {
                assert forall|j: int| 0 <= j < blanks@.len() implies cells(#[trigger] blanks@[j]@.plain) <= usize::MAX by {
                    if j < prev.len() {
                        assert(blanks@[j] == prev[j]);
                    } else {
                        assert(blanks@[j]@.plain =~= Seq::<char>::empty());
                    }
                }
            }
            k += 1;
        }
        let ghost line = row_line(t, *b, widths@, blank_texts(n as nat), style_views(styles@), row_style@, opt_style_views(ovs@));
        let mut out: Vec<Segment> = Vec::new();
        let mut c: usize = 0;
        while c < count
            invariant
                c <= count,
                t == self@,
                n == widths@.len(),
                n == t.columns.len(),
                blanks@.len() == n,
                styles@.len() == n,
                ovs@.len() == n,
                text_views(blanks@) == blank_texts(n as nat),
                forall|j: int| 0 <= j < blanks@.len() ==> cells(#[trigger] blanks@[j]@.plain) <= usize::MAX,
                line == row_line(t, *b, widths@, blank_texts(n as nat), style_views(styles@), row_style@, opt_style_views(ovs@)),
                segs_model(out@) == repeat_segs(line, c as nat),
            decreases count - c,
        {
            push_segs(&mut out, self.row_content(b, widths, &blanks, styles, row_style, ovs));
            c += 1;
        }
        out
    }

    /// A row line with vertical padding above and below (see `padded_row`).
    fn padded_row_segments(
        &self,
        b: &BoxChars,
        widths: &Vec<usize>,
        texts: &Vec<Text>,
        styles: &Vec<Style>,
        row_style: &Style,
        ovs: &Vec<Option<Style>>,
    ) -> (r: Vec<Segment>)
        requires
            widths@.len() == self@.columns.len(),
            texts@.len() == widths@.len(),
            styles@.len() == widths@.len(),
            ovs@.len() == widths@.len(),
            forall|k: int| 0 <= k < texts@.len() ==> cells(#[trigger] texts@[k]@.plain) <= usize::MAX,
        ensures
            segs_model(r@) == padded_row(
                self@,
                *b,
                widths@,
                text_views(texts@),
                style_views(styles@),
                row_style@,
                opt_style_views(ovs@),
            ),
    {
        let mut out = self.blank_rows(b, widths, styles, row_style, ovs, self.padding.1);
        push_segs(&mut out, self.row_content(b, widths, texts, styles, row_style, ovs));
        push_segs(&mut out, self.blank_rows(b, widths, styles, row_style, ovs, self.padding.1));
        out
    }
}

impl Table {
    /// The header texts and styles of the columns.
    fn header_cells(&self) -> (r: (Vec<Text>, Vec<Style>))
        ensures
            text_views(r.0@) == header_texts(self@.columns),
            style_views(r.1@) == header_styles(self@.columns),
            r.0@.len() == self@.columns.len(),
            r.1@.len() == self@.columns.len(),
    {
        let n = self.columns.len();
        let mut texts: Vec<Text> = Vec::new();
        let mut styles: Vec<Style> = Vec::new();
        let mut i: usize = 0;
        while i < n
            invariant
                i <= n,
                n == self.columns@.len(),
                texts@.len() == i,
                styles@.len() == i,
                text_views(texts@) == header_texts(self.columns@).take(i as int),
                style_views(styles@) == header_styles(self.columns@).take(i as int),
            decreases n - i,
        {
            texts.push(self.columns[i].header.clone());
            styles.push(self.columns[i].header_style.clone());
            i += 1;
            assert(text_views(texts@) =~= header_texts(self.columns@).take(i as int));
            assert(style_views(styles@) =~= header_styles(self.columns@).take(i as int));
        }
        assert(header_texts(self.columns@).take(n as int) =~= header_texts(self.columns@));
        assert(header_styles(self.columns@).take(n as int) =~= header_styles(self.columns@));
        (texts, styles)
    }

    /// The footer texts and styles of the columns.
    fn footer_cells(&self) -> (r: (Vec<Text>, Vec<Style>))
        ensures
            text_views(r.0@) == footer_texts(self@.columns),
            style_views(r.1@) == footer_styles(self@.columns),
            r.0@.len() == self@.columns.len(),
            r.1@.len() == self@.columns.len(),
    {
        let n = self.columns.len();
        let mut texts: Vec<Text> = Vec::new();
        let mut styles: Vec<Style> = Vec::new();
        let mut i: usize = 0;
        while i < n
            invariant
                i <= n,
                n == self.columns@.len(),
                texts@.len() == i,
                styles@.len() == i,
                text_views(texts@) == footer_texts(self.columns@).take(i as int),
                style_views(styles@) == footer_styles(self.columns@).take(i as int),
            decreases n - i,
        {
            texts.push(self.columns[i].footer.clone());
            styles.push(self.columns[i].footer_style.clone());
            i += 1;
            assert(text_views(texts@) =~= footer_texts(self.columns@).take(i as int));
            assert(style_views(styles@) =~= footer_styles(self.columns@).take(i as int));
        }
        assert(footer_texts(self.columns@).take(n as int) =~= footer_texts(self.columns@));
        assert(footer_styles(self.columns@).take(n as int) =~= footer_styles(self.columns@));
        (texts, styles)
    }

    /// The cell styles of the columns.
    fn column_styles(&self) -> (r: Vec<Style>)
        ensures
            style_views(r@) == body_styles(self@.columns),
            r@.len() == self@.columns.len(),
    {
        let n = self.columns.len();
        let mut styles: Vec<Style> = Vec::new();
        let mut i: usize = 0;
        while i < n
            invariant
                i <= n,
                n == self.columns@.len(),
                styles@.len() == i,
                style_views(styles@) == body_styles(self.columns@).take(i as int),
            decreases n - i,
        {
            styles.push(self.columns[i].style.clone());
            i += 1;
            assert(style_views(styles@) =~= body_styles(self.columns@).take(i as int));
        }
        assert(body_styles(self.columns@).take(n as int) =~= body_styles(self.columns@));
        styles
    }

    /// The texts and style overrides of row `r` in the table's columns.
    fn row_data(&self, r: usize) -> (d: (Vec<Text>, Vec<Option<Style>>))
        requires
            r < self@.rows.len(),
        ensures
            text_views(d.0@) == row_texts(self@.rows[r as int], self@.columns.len()),
            opt_style_views(d.1@) == row_overrides(self@.rows[r as int], self@.columns.len()),
            d.0@.len() == self@.columns.len(),
            d.1@.len() == self@.columns.len(),
    {
        let n = self.columns.len();
        let row = &self.rows[r];
        let ghost rt = row_texts(*row, n as nat);
        let ghost ro = row_overrides(*row, n as nat);
        let mut texts: Vec<Text> = Vec::new();
        let mut ovs: Vec<Option<Style>> = Vec::new();
        let mut i: usize = 0;
        while i < n
            invariant
                i <= n,
                rt == row_texts(*row, n as nat),
                ro == row_overrides(*row, n as nat),
                texts@.len() == i,
                ovs@.len() == i,
                text_views(texts@) == rt.take(i as int),
                opt_style_views(ovs@) == ro.take(i as int),
            decreases n - i,
        {
            if i < row.cells.len() {
                texts.push(row.cells[i].content.clone());
                let o = match &row.cells[i].style {
                    Some(s) => Some(s.clone()),
                    None => None,
                };
                ovs.push(o);
            } else {
                let e = Text::empty();
                texts.push(e);
                ovs.push(None);
            }
            i += 1;
            assert(text_views(texts@) =~= rt.take(i as int));
            assert(opt_style_views(ovs@) =~= ro.take(i as int));
        }
        assert(rt.take(n as int) =~= rt);
        assert(ro.take(n as int) =~= ro);
        (texts, ovs)
    }

    /// No style overrides for `n` cells.
    fn no_overrides_vec(n: usize) -> (r: Vec<Option<Style>>)
        ensures
            opt_style_views(r@) == no_overrides(n as nat),
            r@.len() == n,
    {
        let mut v: Vec<Option<Style>> = Vec::new();
        let mut i: usize = 0;
        while i < n
            invariant
                i <= n,
                v@.len() == i,
                opt_style_views(v@) == no_overrides(i as nat),
            decreases n - i,
        {
            let ghost prev = v@;
            v.push(None);
            assert(opt_style_views(v@) =~= opt_style_views(prev).push(None));
            assert(no_overrides((i + 1) as nat) =~= no_overrides(i as nat).push(None));
            i += 1;
        }
        v
    }

    /// The header part (see `header_part`).
    fn header_segments(&self, b: &BoxChars, widths: &Vec<usize>) -> (r: Vec<Segment>)
        requires
            widths@.len() == self@.columns.len(),
            texts_fit(self@.columns, self@.rows),
        ensures
            segs_model(r@) == header_part(self@, *b, widths@),
    {
        let ghost t = self@;
        let n = self.columns.len();
        if !(self.show_header && n > 0) {
            return Vec::new();
        }
        let (texts, styles) = self.header_cells();
        let ovs = Table::no_overrides_vec(n);
        assert forall|k: int| 0 <= k < texts@.len() implies cells(#[trigger] texts@[k]@.plain) <= usize::MAX by {
            assert(text_views(texts@)[k] == texts@[k]@);
            assert(header_texts(t.columns)[k] == t.columns[k].header@);
        }
        let mut out = self.padded_row_segments(b, widths, &texts, &styles, &self.header_style, &ovs);
        let has_footer = self.show_footer && n > 0;
        let ghost p = segs_model(out@);
        if self.leading > 0 && (self.rows.len() > 0 || has_footer) {
            push_segs(&mut out, self.blank_rows(b, widths, &styles, &self.header_style, &ovs, self.leading));
        }
        let ghost q = segs_model(out@);
        assert(q =~= p + only_if(
            t.leading > 0 && more_below(t, -1),
            blank_lines(t, *b, widths@, header_styles(t.columns), t.header_style, no_overrides(n as nat), t.leading as nat),
        ));
        push_segs(&mut out, self.separator_line(b, widths, RowLevel::HeadRow));
        out
    }

    /// Row `r` (see `row_block`).
    fn row_segments(&self, b: &BoxChars, widths: &Vec<usize>, styles: &Vec<Style>, r: usize) -> (v: Vec<Segment>)
        requires
            widths@.len() == self@.columns.len(),
            r < self@.rows.len(),
            style_views(styles@) == body_styles(self@.columns),
            styles@.len() == self@.columns.len(),
            texts_fit(self@.columns, self@.rows),
        ensures
            segs_model(v@) == row_block(self@, *b, widths@, r as int),
    {
        let ghost t = self@;
        let n = self.columns.len();
        let row_style = if self.row_styles.len() == 0 {
            &self.rows[r].style
        } else {
            &self.row_styles[r % self.row_styles.len()]
        };
        assert(row_style@ == row_style_of(t, r as int));
        let (texts, ovs) = self.row_data(r);
        assert forall|k: int| 0 <= k < texts@.len() implies cells(#[trigger] texts@[k]@.plain) <= usize::MAX by {
            assert(text_views(texts@)[k] == texts@[k]@);
            if k < t.rows[r as int].cells@.len() {
                assert(cells(t.rows[r as int].cells@[k].content@.plain) <= usize::MAX);
            } else {
                assert(blank_text().plain =~= Seq::<char>::empty());
            }
        }
        let mut out = self.padded_row_segments(b, widths, &texts, styles, row_style, &ovs);
        let ghost p = segs_model(out@);
        let has_footer = self.show_footer && n > 0;
        assert(r < self.rows.len());
        let has_next = r + 1 < self.rows.len() || has_footer;
        if self.leading > 0 && has_next {
            push_segs(&mut out, self.blank_rows(b, widths, styles, row_style, &ovs, self.leading));
        }
        let ghost q = segs_model(out@);
        assert(q =~= p + only_if(
            t.leading > 0 && more_below(t, r as int),
            blank_lines(t, *b, widths@, body_styles(t.columns), row_style_of(t, r as int), row_overrides(t.rows[r as int], n as nat), t.leading as nat),
        ));
        if (self.show_lines || self.rows[r].end_section) && r + 1 < self.rows.len() {
            push_segs(&mut out, self.separator_line(b, widths, RowLevel::Row));
        }
        assert(segs_model(out@) =~= q + only_if(
            (t.show_lines || t.rows[r as int].end_section) && r + 1 < t.rows.len(),
            sep_line(t, *b, widths@, RowLevel::Row),
        ));
        out
    }

    /// The footer part (see `footer_part`).
    fn footer_segments(&self, b: &BoxChars, widths: &Vec<usize>) -> (r: Vec<Segment>)
        requires
            widths@.len() == self@.columns.len(),
            texts_fit(self@.columns, self@.rows),
        ensures
            segs_model(r@) == footer_part(self@, *b, widths@),
    {
        let ghost t = self@;
        let n = self.columns.len();
        if !(self.show_footer && n > 0) {
            return Vec::new();
        }
        let (texts, styles) = self.footer_cells();
        let ovs = Table::no_overrides_vec(n);
        assert forall|k: int| 0 <= k < texts@.len() implies cells(#[trigger] texts@[k]@.plain) <= usize::MAX by {
            assert(text_views(texts@)[k] == texts@[k]@);
            assert(footer_texts(t.columns)[k] == t.columns[k].footer@);
        }
        let mut out = self.separator_line(b, widths, RowLevel::FootRow);
        push_segs(&mut out, self.padded_row_segments(b, widths, &texts, &styles, &self.footer_style, &ovs));
        out
    }

    /// A title or caption `width` cells wide (see `label_segs`).
    fn label_line(&self, text: &Text, width: usize, style: &Style, justify: JustifyMethod) -> (r: Vec<Segment>)
        requires
            cells(text@.plain) <= usize::MAX,
        ensures
            segs_model(r@) == label_segs(text@, width as nat, style@, justify),
    {
        if width == 0 {
            return Vec::new();
        }
        let mut content = text.clone();
        if content.cell_len() > width {
            content.truncate(width, OverflowMethod::Crop);
        }
        let content_width = content.cell_len();
        let space = if width > content_width { width - content_width } else { 0 };
        let (left, right) = match justify {
            JustifyMethod::Right => (space, 0),
            JustifyMethod::Center | JustifyMethod::Full => (space / 2, space - space / 2),
            _ => (0, space),
        };
        assert((left as nat, right as nat) == label_spaces(justify, space as nat));
        let mut out: Vec<Segment> = Vec::new();
        if left > 0 {
            push_seg(&mut out, spaces_segment(left, Some(style.clone())));
        }
        let ghost s1 = segs_model(out@);
        let combined = style.combine(content.style());
        content.set_style(combined);
        push_segs(&mut out, content.render());
        let ghost s2 = segs_model(out@);
        if right > 0 {
            push_seg(&mut out, spaces_segment(right, Some(style.clone())));
        }
        proof {
            assert(s1 =~= only_if(left > 0, seq![pad_seg(left as nat, Some(style@))]));
            assert(segs_model(out@) =~= s2 + only_if(right > 0, seq![pad_seg(right as nat, Some(style@))]));
        }
        out
    }

    /// The width of a rendered line (see `row_width`).
    fn total_row_width(&self, widths: &Vec<usize>) -> (w: usize)
        requires
            widths@.len() == self@.columns.len(),
            row_width(self@, widths@) <= usize::MAX,
            overhead(self@) <= usize::MAX,
        ensures
            w == row_width(self@, widths@),
    {
        let ghost t = self@;
        let content = sum_widths(widths.as_slice());
        let n = widths.len();
        let separators: usize = if n > 1 {
            if self.collapse_padding {
                n - 1
            } else {
                assert(1 + self.padding.0 * 2 <= (n - 1) * (1 + self.padding.0 * 2)) by (nonlinear_arith)
                    requires n > 1;
                (n - 1) * (1 + self.padding.0 * 2)
            }
        } else {
            0
        };
        let edge_padding: usize = if self.pad_edge { self.padding.0 * 2 } else { 0 };
        let edges: usize = if self.show_edge { 2 } else { 0 };
        assert(edges + separators + edge_padding == overhead(t));
        content + separators + edge_padding + edges
    }

    /// A title or caption line, where there is one (see `label_part`).
    fn label_segments(
        &self,
        widths: &Vec<usize>,
        label: &Option<Text>,
        style: &Style,
        justify: JustifyMethod,
    ) -> (r: Vec<Segment>)
        requires
            widths@.len() == self@.columns.len(),
            overhead(self@) <= usize::MAX,
            label is Some ==> row_width(self@, widths@) <= usize::MAX,
            label matches Some(x) ==> cells(x@.plain) <= usize::MAX,
        ensures
            segs_model(r@) == label_part(self@, widths@, opt_text(*label), style@, justify),
    {
        match label {
            Some(text) => {
                let width = self.total_row_width(widths);
                let mut out = self.label_line(text, width, style, justify);
                push_seg(&mut out, Segment::line());
                out
            },
            None => Vec::new(),
        }
    }

    /// Render the table within `max_width` cells (see `render_spec`).
    pub fn render(&self, max_width: usize) -> (r: Vec<Segment>)
        requires
            render_ok(self@, max_width as nat),
        ensures
            segs_model(r@) == render_spec(self@, max_width as nat),
    {
        let ghost t = self@;
        let b = self.effective_box();
        let widths = self.calculate_widths(max_width);
        if widths.len() == 0 {
            return Vec::new();
        }
        proof {
            lemma_widths_len(t, max_width as nat);
        }
        let mut out = self.label_segments(&widths, &self.title, &self.title_style, self.title_justify);
        if self.show_edge {
            push_segs(&mut out, self.separator_line(&b, &widths, RowLevel::Top));
        }
        let ghost p1 = segs_model(out@);
        assert(p1 =~= label_part(t, widths@, t.title, t.title_style, t.title_justify) + only_if(
            t.show_edge,
            sep_line(t, b, widths@, RowLevel::Top),
        ));
        push_segs(&mut out, self.header_segments(&b, &widths));
        let ghost p2 = segs_model(out@);
        let styles = self.column_styles();
        let mut r: usize = 0;
        while r < self.rows.len()
            invariant
                r <= self.rows@.len(),
                t == self@,
                widths@.len() == t.columns.len(),
                widths@ == calculate_widths_spec(t, max_width as nat),
                b == table_box(t),
                style_views(styles@) == body_styles(t.columns),
                styles@.len() == t.columns.len(),
                texts_fit(t.columns, t.rows),
                segs_model(out@) == p2 + body_part(t, b, widths@, r as nat),
            decreases self.rows.len() - r,
        {
            push_segs(&mut out, self.row_segments(&b, &widths, &styles, r));
            r += 1;
            assert(segs_model(out@) =~= p2 + body_part(t, b, widths@, r as nat));
        }
        push_segs(&mut out, self.footer_segments(&b, &widths));
        let ghost p3 = segs_model(out@);
        if self.show_edge {
            push_segs(&mut out, self.separator_line(&b, &widths, RowLevel::Bottom));
        }
        let ghost p4 = segs_model(out@);
        assert(p4 =~= p3 + only_if(t.show_edge, sep_line(t, b, widths@, RowLevel::Bottom)));
        push_segs(&mut out, self.label_segments(&widths, &self.caption, &self.caption_style, self.caption_justify));
        out
    }

    /// Render to plain text: the texts of the rendered segments.
    pub fn render_plain(&self, max_width: usize) -> (s: String)
        requires
            render_ok(self@, max_width as nat),
        ensures
            s@ == texts(render_spec(self@, max_width as nat)),
    {
        segments_text(&self.render(max_width))
    }
}

/// Handing out by size weights to the first `k` columns: every column is
/// weighted, the widths past `k` are untouched, and the sum of the widths has
/// grown by what was handed out.
proof fn lemma_size_distribute(w: Seq<usize>, total_w: nat, remaining: nat, k: nat)
    requires
        k <= w.len(),
        distribute_ok(w, size_weights(w), total_w, remaining, w.len()),
        total(w) + remaining <= usize::MAX,
    ensures
        distribute(w, size_weights(w), total_w, remaining, w.len(), k).0.len() == w.len(),
        distribute(w, size_weights(w), total_w, remaining, w.len(), k).2 == k,
        total(distribute(w, size_weights(w), total_w, remaining, w.len(), k).0)
            == total(w) + distribute(w, size_weights(w), total_w, remaining, w.len(), k).1,
        forall|j: int| k <= j < w.len() ==> #[trigger] distribute(w, size_weights(w), total_w, remaining, w.len(), k).0[j] == w[j],
    decreases k,
{
    if k > 0 {
        let ws = size_weights(w);
        lemma_size_distribute(w, total_w, remaining, (k - 1) as nat);
        let prev = distribute(w, ws, total_w, remaining, w.len(), (k - 1) as nat);
        let i = k - 1;
        let d = distribute(w, ws, total_w, remaining, w.len(), k);
        assert(ws[i] > 0);
        let extra = if prev.2 + 1 == w.len() { sat_sub(remaining as int, prev.1 as int) } else {
            rounded_share(ws[i] as nat, total_w, remaining)
        };
        assert(d == (prev.0.update(i, sat_add(prev.0[i], extra)), prev.1 + extra, prev.2 + 1));
        assert(d.1 <= remaining);
        lemma_total_element(w, i);
        assert(prev.0[i] == w[i]);
        assert(sat_add(prev.0[i], extra) == w[i] + extra);
        lemma_total_update(prev.0, i, sat_add(prev.0[i], extra));
    }
}

/// Growing widths by their sizes fills the available cells exactly, and no
/// width shrinks.
pub proof fn law_weights_fill(w: Seq<usize>, available: nat)
    requires
        w.len() > 0,
        weights_ok(w, available),
        total(w) <= available,
        available <= usize::MAX,
    ensures
        weights_spec(w, available).len() == w.len(),
        total(weights_spec(w, available)) == available,
{
    let ws = size_weights(w);
    lemma_total_element(ws, 0);
    if total(w) < available {
        let remaining = (available - total(w)) as nat;
        let n = w.len();
        lemma_size_distribute(w, total(ws), remaining, n);
        lemma_size_distribute(w, total(ws), remaining, (n - 1) as nat);
        let prev = distribute(w, ws, total(ws), remaining, n, (n - 1) as nat);
        assert(prev.1 <= remaining);
        assert(distribute(w, ws, total(ws), remaining, n, n).1 == remaining);
    }
}

/// A table with a fixed width and no column ratios, whose natural column
/// widths fit in the cells left beside its borders and padding, gets column
/// widths that fill those cells exactly.
pub proof fn law_fixed_width_fills(t: TableModel, max_width: nat)
    requires
        t.columns.len() > 0,
        t.width is Some,
        !has_ratio(t.columns),
        calc_ok(t, max_width),
        total(calc_collapsed(t, max_width)) <= calc_available(t, max_width),
        calc_available(t, max_width) <= usize::MAX,
    ensures
        total(calculate_widths_spec(t, max_width)) == calc_available(t, max_width),
{
    let w = calc_collapsed(t, max_width);
    let available = calc_available(t, max_width);
    assert(calc_target(t, max_width) == (available, true));
    lemma_collapse_shape(natural_widths(t.columns, t.rows), col_mins(t.columns), available);
    if total(w) < available {
        law_weights_fill(w, available);
    }
}

/// How free space beside content is split by a justification: everything is
/// split, left and default keep it all after, right all before, center splits
/// it evenly with the odd one after.
pub open spec fn justified_split(j: JustifyMethod, left: nat, right: nat, space: nat) -> bool {
    &&& left + right == space
    &&& (j is Left || j is Default) ==> left == 0
    &&& j is Right ==> right == 0
    &&& j is Center ==> left <= right <= left + 1
}

/// Every cell of a row is laid out with the free space of its column split
/// by the column's justification: a centered cell has as many spaces before
/// its text as after, give or take one; a right-justified cell has them all
/// before, a left-justified one all after. Fully justified cells are laid out
/// as left-justified ones.
pub proof fn law_cell_justification(
    t: TableModel,
    b: BoxChars,
    w: Seq<usize>,
    i: nat,
    text: TextModel,
    col_style: StyleModel,
    row_style: StyleModel,
    ov: Option<StyleModel>,
)
    ensures
        ({
            let col = t.columns[i as int];
            let shown = truncated(text.plain, w[i as int] as nat, col.overflow);
            let st = cell_style(t, row_style, col_style, ov, text.style);
            let space = sat_sub(w[i as int] as int, cells(shown) as int);
            exists|left: nat, right: nat|
                {
                    &&& cell_segs(t, b, w, i, text, col_style, row_style, ov) == cell_layout(t, b, w.len(), i, shown, st, left, right)
                    &&& #[trigger] justified_split(col.justify, left, right, space)
                    &&& col.justify is Full ==> left == 0
                }
        }),
{
    let col = t.columns[i as int];
    let shown = truncated(text.plain, w[i as int] as nat, col.overflow);
    let sp = cell_spaces(col.justify, sat_sub(w[i as int] as int, cells(shown) as int));
    let st = cell_style(t, row_style, col_style, ov, text.style);
    assert(cell_segs(t, b, w, i, text, col_style, row_style, ov) == cell_layout(t, b, w.len(), i, shown, st, sp.0, sp.1));
    assert(justified_split(col.justify, sp.0, sp.1, sat_sub(w[i as int] as int, cells(shown) as int)));
}

/// A title or caption has the free space beside it split by its
/// justification; full justification centers it.
pub proof fn law_label_justification(j: JustifyMethod, space: nat)
    ensures
        justified_split(j, label_spaces(j, space).0, label_spaces(j, space).1, space),
        j is Full ==> label_spaces(j, space).0 <= label_spaces(j, space).1 <= label_spaces(j, space).0 + 1,
{
}

} // verus!
