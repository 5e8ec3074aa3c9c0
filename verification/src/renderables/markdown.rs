//! Markdown documents: the source text and the styles and list settings used
//! to render it.
use vstd::prelude::*;
use crate::color::{hex_slice_panics, parse_outcome};
use crate::strings::{std_lowercase, std_trim};
use crate::style::{
    empty_style_model, outcome_color, with_attr_model, with_bgcolor_model, with_color_model, Style,
    StyleModel,
};
use crate::cells::{cell_len, cell_len_saturating, cells};
use crate::renderables::table::max_nat;
use crate::segment::{
    char_seg, char_segment, char_vecs, plain_model, push_seg, push_segs, segs_model, text_lines,
    text_lines_exec, Segment, SegmentModel,
};
use crate::style::opt_style_model;
use crate::renderables::table::style_views;
use crate::text_ops::{
    decimal, decimal_string, owned, push_char, push_repeat, push_str, repeat_char, repeat_spec, spaces,
};

verus! {

/// A markdown document with its rendering settings.
#[derive(Debug)]
pub struct Markdown {
    /// The markdown source text.
    source: String,
    /// Style for H1 headings.
    h1_style: Style,
    /// Style for H2 headings.
    h2_style: Style,
    /// Style for H3 headings.
    h3_style: Style,
    /// Style for H4-H6 headings.
    h4_style: Style,
    /// Style for emphasis (italic).
    emphasis_style: Style,
    /// Style for strong emphasis (bold).
    strong_style: Style,
    /// Style for strikethrough text.
    strikethrough_style: Style,
    /// Style for inline code.
    code_style: Style,
    /// Style for code blocks.
    code_block_style: Style,
    /// Style for links.
    link_style: Style,
    /// Style for blockquotes.
    quote_style: Style,
    /// Style for table headers.
    table_header_style: Style,
    /// Style for table borders.
    table_border_style: Style,
    /// Character for bullet points.
    pub bullet_char: char,
    /// Indent for nested lists.
    pub list_indent: usize,
    /// Whether to show link URLs.
    pub show_links: bool,
}

/// The value of a markdown document's settings.
pub struct MarkdownModel {
    pub source: Seq<char>,
    pub h1_style: StyleModel,
    pub h2_style: StyleModel,
    pub h3_style: StyleModel,
    pub h4_style: StyleModel,
    pub emphasis_style: StyleModel,
    pub strong_style: StyleModel,
    pub strikethrough_style: StyleModel,
    pub code_style: StyleModel,
    pub code_block_style: StyleModel,
    pub link_style: StyleModel,
    pub quote_style: StyleModel,
    pub table_header_style: StyleModel,
    pub table_border_style: StyleModel,
    pub bullet_char: char,
    pub list_indent: usize,
    pub show_links: bool,
}

impl View for Markdown {
    type V = MarkdownModel;

    closed spec fn view(&self) -> MarkdownModel {
        MarkdownModel {
            source: self.source@,
            h1_style: self.h1_style@,
            h2_style: self.h2_style@,
            h3_style: self.h3_style@,
            h4_style: self.h4_style@,
            emphasis_style: self.emphasis_style@,
            strong_style: self.strong_style@,
            strikethrough_style: self.strikethrough_style@,
            code_style: self.code_style@,
            code_block_style: self.code_block_style@,
            link_style: self.link_style@,
            quote_style: self.quote_style@,
            table_header_style: self.table_header_style@,
            table_border_style: self.table_border_style@,
            bullet_char: self.bullet_char,
            list_indent: self.list_indent,
            show_links: self.show_links,
        }
    }
}

/// A style with a named foreground color, or the default style where the
/// name does not parse.
pub open spec fn colored_or_default(base: StyleModel, name: Seq<char>) -> StyleModel {
    let n = std_lowercase(std_trim(name));
    if hex_slice_panics(n) {
        empty_style_model(false)
    } else {
        match outcome_color(parse_outcome(n)) {
            Some(c) => with_color_model(base, c),
            None => empty_style_model(false),
        }
    }
}

/// A style with a named background color, or the default style where the
/// name does not parse.
pub open spec fn bg_or_default(base: StyleModel, name: Seq<char>) -> StyleModel {
    let n = std_lowercase(std_trim(name));
    if hex_slice_panics(n) {
        empty_style_model(false)
    } else {
        match outcome_color(parse_outcome(n)) {
            Some(c) => with_bgcolor_model(base, c),
            None => empty_style_model(false),
        }
    }
}

/// `base` with the named foreground color, or the default style.
pub(crate) fn with_color_or_default(base: Style, name: &str) -> (s: Style)
    ensures
        s@ == colored_or_default(base@, name@),
{
    let ghost b = base@;
    match base.checked_color_str(name) {
        Some(Ok(s)) => s,
        _ => Style::default(),
    }
}

/// `base` with the named background color, or the default style.
fn with_bgcolor_or_default(base: Style, name: &str) -> (s: Style)
    ensures
        s@ == bg_or_default(base@, name@),
{
    match base.checked_bgcolor_str(name) {
        Some(Ok(s)) => s,
        _ => Style::default(),
    }
}

/// The default settings: cyan and blue bold headings (the first also
/// underlined), italic emphasis, bold strong text, struck-through
/// strikethrough, magenta code on a dark background, and so on; `•` bullets,
/// an indent of two, links shown.
pub open spec fn default_markdown(source: Seq<char>) -> MarkdownModel {
    let plain = empty_style_model(false);
    MarkdownModel {
        source,
        h1_style: colored_or_default(with_attr_model(with_attr_model(plain, 1), 8), "bright_cyan"@),
        h2_style: colored_or_default(with_attr_model(plain, 1), "cyan"@),
        h3_style: colored_or_default(with_attr_model(plain, 1), "blue"@),
        h4_style: colored_or_default(with_attr_model(plain, 1), "bright_blue"@),
        emphasis_style: with_attr_model(plain, 4),
        strong_style: with_attr_model(plain, 1),
        strikethrough_style: with_attr_model(plain, 256),
        code_style: bg_or_default(colored_or_default(plain, "bright_magenta"@), "bright_black"@),
        code_block_style: bg_or_default(colored_or_default(plain, "white"@), "bright_black"@),
        link_style: with_attr_model(colored_or_default(plain, "bright_blue"@), 8),
        quote_style: colored_or_default(with_attr_model(plain, 4), "bright_black"@),
        table_header_style: colored_or_default(with_attr_model(plain, 1), "bright_white"@),
        table_border_style: colored_or_default(plain, "bright_black"@),
        bullet_char: '\u{2022}',
        list_indent: 2,
        show_links: true,
    }
}

impl Markdown {
    /// Create a new Markdown document with the default settings.
    pub fn new(source: &str) -> (m: Self)
        ensures
            m@ == default_markdown(source@),
    {
        Markdown {
            source: owned(source),
            h1_style: with_color_or_default(Style::new().bold().underline(), "bright_cyan"),
            h2_style: with_color_or_default(Style::new().bold(), "cyan"),
            h3_style: with_color_or_default(Style::new().bold(), "blue"),
            h4_style: with_color_or_default(Style::new().bold(), "bright_blue"),
            emphasis_style: Style::new().italic(),
            strong_style: Style::new().bold(),
            strikethrough_style: Style::new().strike(),
            code_style: with_bgcolor_or_default(with_color_or_default(Style::new(), "bright_magenta"), "bright_black"),
            code_block_style: with_bgcolor_or_default(with_color_or_default(Style::new(), "white"), "bright_black"),
            link_style: with_color_or_default(Style::new(), "bright_blue").underline(),
            quote_style: with_color_or_default(Style::new().italic(), "bright_black"),
            table_header_style: with_color_or_default(Style::new().bold(), "bright_white"),
            table_border_style: with_color_or_default(Style::new(), "bright_black"),
            bullet_char: '\u{2022}',
            list_indent: 2,
            show_links: true,
        }
    }

    /// The markdown source text.
    pub fn source(&self) -> (s: &str)
        ensures
            s@ == self@.source,
    {
        self.source.as_str()
    }

    /// Set the style for H1 headings.
    pub fn h1_style(self, style: Style) -> (m: Self)
        ensures
            m@ == (MarkdownModel { h1_style: style@, ..self@ }),
    {
        Markdown { h1_style: style, ..self }
    }

    /// Set the style for H2 headings.
    pub fn h2_style(self, style: Style) -> (m: Self)
        ensures
            m@ == (MarkdownModel { h2_style: style@, ..self@ }),
    {
        Markdown { h2_style: style, ..self }
    }

    /// Set the style for H3 headings.
    pub fn h3_style(self, style: Style) -> (m: Self)
        ensures
            m@ == (MarkdownModel { h3_style: style@, ..self@ }),
    {
        Markdown { h3_style: style, ..self }
    }

    /// Set the style for H4-H6 headings.
    pub fn h4_style(self, style: Style) -> (m: Self)
        ensures
            m@ == (MarkdownModel { h4_style: style@, ..self@ }),
    {
        Markdown { h4_style: style, ..self }
    }

    /// Set the style for emphasis.
    pub fn emphasis_style(self, style: Style) -> (m: Self)
        ensures
            m@ == (MarkdownModel { emphasis_style: style@, ..self@ }),
    {
        Markdown { emphasis_style: style, ..self }
    }

    /// Set the style for strong emphasis.
    pub fn strong_style(self, style: Style) -> (m: Self)
        ensures
            m@ == (MarkdownModel { strong_style: style@, ..self@ }),
    {
        Markdown { strong_style: style, ..self }
    }

    /// Set the style for inline code.
    pub fn code_style(self, style: Style) -> (m: Self)
        ensures
            m@ == (MarkdownModel { code_style: style@, ..self@ }),
    {
        Markdown { code_style: style, ..self }
    }

    /// Set the style for code blocks.
    pub fn code_block_style(self, style: Style) -> (m: Self)
        ensures
            m@ == (MarkdownModel { code_block_style: style@, ..self@ }),
    {
        Markdown { code_block_style: style, ..self }
    }

    /// Set the style for links.
    pub fn link_style(self, style: Style) -> (m: Self)
        ensures
            m@ == (MarkdownModel { link_style: style@, ..self@ }),
    {
        Markdown { link_style: style, ..self }
    }

    /// Set the style for blockquotes.
    pub fn quote_style(self, style: Style) -> (m: Self)
        ensures
            m@ == (MarkdownModel { quote_style: style@, ..self@ }),
    {
        Markdown { quote_style: style, ..self }
    }

    /// Set the style for table headers.
    pub fn table_header_style(self, style: Style) -> (m: Self)
        ensures
            m@ == (MarkdownModel { table_header_style: style@, ..self@ }),
    {
        Markdown { table_header_style: style, ..self }
    }

    /// Set the style for table borders.
    pub fn table_border_style(self, style: Style) -> (m: Self)
        ensures
            m@ == (MarkdownModel { table_border_style: style@, ..self@ }),
    {
        Markdown { table_border_style: style, ..self }
    }

    /// Set the bullet character for unordered lists.
    pub fn bullet_char(self, c: char) -> (m: Self)
        ensures
            m@ == (MarkdownModel { bullet_char: c, ..self@ }),
    {
        Markdown { bullet_char: c, ..self }
    }

    /// Set the indent for nested lists.
    pub fn list_indent(self, indent: usize) -> (m: Self)
        ensures
            m@ == (MarkdownModel { list_indent: indent, ..self@ }),
    {
        Markdown { list_indent: indent, ..self }
    }

    /// Set whether to show link URLs after link text.
    pub fn show_links(self, show: bool) -> (m: Self)
        ensures
            m@ == (MarkdownModel { show_links: show, ..self@ }),
    {
        Markdown { show_links: show, ..self }
    }
}

// Rendering: a markdown document arrives as the events of a CommonMark
// parser, and each event updates the rendering state.

/// Column alignment in a table.
#[derive(Debug, Clone, Copy, PartialEq, Eq, Structural)]
pub enum MdAlignment {
    /// No alignment given (left).
    Unaligned,
    /// Flush left.
    Left,
    /// Centered.
    Center,
    /// Flush right.
    Right,
}

/// The start of a markdown element.
#[derive(Debug, Clone, PartialEq, Eq)]
pub enum MdTag {
    /// A paragraph.
    Paragraph,
    /// A heading of the given level (1 to 6).
    Heading(u8),
    /// A block quote.
    BlockQuote,
    /// A code block.
    CodeBlock,
    /// A list, numbered from the given start where it is ordered.
    List(Option<u64>),
    /// A list item.
    Item,
    /// A table with the alignments of its columns.
    Table(Vec<MdAlignment>),
    /// The head row of a table.
    TableHead,
    /// A body row of a table.
    TableRow,
    /// A table cell.
    TableCell,
    /// Emphasis.
    Emphasis,
    /// Strong emphasis.
    Strong,
    /// Struck-through text.
    Strikethrough,
    /// A link to the given destination.
    Link(String),
    /// Any other element.
    Other,
}

/// The end of a markdown element.
#[derive(Debug, Clone, Copy, PartialEq, Eq, Structural)]
pub enum MdTagEnd {
    Paragraph,
    Heading,
    BlockQuote,
    CodeBlock,
    List,
    Item,
    Table,
    TableHead,
    TableRow,
    TableCell,
    Emphasis,
    Strong,
    Strikethrough,
    Link,
    Other,
}

/// One event of a parsed markdown document.
#[derive(Debug, Clone, PartialEq, Eq)]
pub enum MdEvent {
    /// An element starts.
    Start(MdTag),
    /// An element ends.
    End(MdTagEnd),
    /// Text.
    Text(String),
    /// Inline code.
    Code(String),
    /// A soft line break.
    SoftBreak,
    /// A hard line break.
    HardBreak,
    /// A horizontal rule.
    Rule,
    /// Any other event.
    Other,
}

/// The state of rendering: the segments so far, the open styles, the open
/// lists (ordered or not, next number), whether a code block or quote is
/// open, the current link, and the table being collected.
pub struct MdState {
    pub segs: Seq<SegmentModel>,
    pub styles: Seq<StyleModel>,
    pub lists: Seq<(bool, usize)>,
    pub in_code: bool,
    pub in_quote: bool,
    pub link: Seq<char>,
    pub in_table: bool,
    pub aligns: Seq<MdAlignment>,
    pub rows: Seq<Seq<Seq<char>>>,
    pub row: Seq<Seq<char>>,
    pub cell: Seq<char>,
    pub in_head: bool,
    pub header: Option<Seq<Seq<char>>>,
}

/// The state before the first event.
pub open spec fn md_initial() -> MdState {
    MdState {
        segs: Seq::empty(),
        styles: Seq::empty(),
        lists: Seq::empty(),
        in_code: false,
        in_quote: false,
        link: Seq::empty(),
        in_table: false,
        aligns: Seq::empty(),
        rows: Seq::empty(),
        row: Seq::empty(),
        cell: Seq::empty(),
        in_head: false,
        header: None,
    }
}

/// An unstyled segment.
pub open spec fn bare(t: Seq<char>) -> SegmentModel {
    plain_model(t, None)
}

/// The dim style of rules and link destinations.
pub open spec fn dim_style() -> StyleModel {
    colored_or_default(empty_style_model(false), "bright_black"@)
}

/// `s` with `seg` appended where `s` is not empty.
pub open spec fn sep_if_any(s: Seq<SegmentModel>, t: Seq<char>) -> Seq<SegmentModel> {
    if s.len() > 0 { s.push(bare(t)) } else { s }
}

/// The style of a heading level.
pub open spec fn heading_style(m: MarkdownModel, level: u8) -> StyleModel {
    if level == 1 { m.h1_style } else if level == 2 { m.h2_style } else if level == 3 { m.h3_style } else { m.h4_style }
}

/// The open styles with the last one closed, where there is one.
pub open spec fn pop_style(s: Seq<StyleModel>) -> Seq<StyleModel> {
    if s.len() > 0 { s.drop_last() } else { s }
}

/// The prefix of a list item: its indent, then the number and a dot for an
/// ordered list or the bullet for an unordered one.
pub open spec fn item_prefix(m: MarkdownModel, lists: Seq<(bool, usize)>) -> Seq<SegmentModel> {
    let depth = if lists.len() > 0 { (lists.len() - 1) as nat } else { 0nat };
    let indent = seq![bare(spaces(depth * (m.list_indent as nat)))];
    if lists.len() == 0 {
        indent
    } else if lists.last().0 {
        indent.push(bare(decimal(lists.last().1 as nat) + seq!['.', ' ']))
    } else {
        indent.push(bare(seq![m.bullet_char, ' ']))
    }
}

/// The state after the start of an element.
pub open spec fn md_start(m: MarkdownModel, s: MdState, tag: MdTag) -> MdState {
    match tag {
        MdTag::Heading(level) => MdState {
            segs: sep_if_any(s.segs, seq!['\n', '\n']),
            styles: s.styles.push(heading_style(m, level)),
            ..s
        },
        MdTag::Paragraph => MdState {
            segs: if !s.in_quote && !s.in_table { sep_if_any(s.segs, seq!['\n', '\n']) } else { s.segs },
            ..s
        },
        MdTag::Emphasis => MdState { styles: s.styles.push(m.emphasis_style), ..s },
        MdTag::Strong => MdState { styles: s.styles.push(m.strong_style), ..s },
        MdTag::Strikethrough => MdState { styles: s.styles.push(m.strikethrough_style), ..s },
        MdTag::CodeBlock => MdState {
            in_code: true,
            segs: sep_if_any(s.segs, seq!['\n']),
            styles: s.styles.push(m.code_block_style),
            ..s
        },
        MdTag::Link(dest) => MdState { link: dest@, styles: s.styles.push(m.link_style), ..s },
        MdTag::BlockQuote => MdState {
            in_quote: true,
            segs: sep_if_any(s.segs, seq!['\n']).push(plain_model(seq!['\u{2502}', ' '], Some(m.quote_style))),
            styles: s.styles.push(m.quote_style),
            ..s
        },
        MdTag::List(start) => MdState {
            segs: sep_if_any(s.segs, seq!['\n']),
            lists: s.lists.push((start is Some, match start { Some(n) => n as usize, None => 1usize })),
            ..s
        },
        MdTag::Item => MdState {
            segs: s.segs + item_prefix(m, s.lists),
            lists: if s.lists.len() > 0 && s.lists.last().0 {
                s.lists.update(s.lists.len() - 1, (true, (s.lists.last().1 + 1) as usize))
            } else {
                s.lists
            },
            ..s
        },
        MdTag::Table(aligns) => MdState {
            in_table: true,
            aligns: aligns@,
            rows: Seq::empty(),
            header: None,
            segs: sep_if_any(s.segs, seq!['\n']),
            ..s
        },
        MdTag::TableHead => MdState { in_head: true, row: Seq::empty(), ..s },
        MdTag::TableRow => MdState { row: Seq::empty(), ..s },
        MdTag::TableCell => MdState { cell: Seq::empty(), ..s },
        MdTag::Other => s,
    }
}

/// The state after the end of an element.
pub open spec fn md_end(m: MarkdownModel, s: MdState, tag: MdTagEnd) -> MdState {
    match tag {
        MdTagEnd::Heading | MdTagEnd::Emphasis | MdTagEnd::Strong | MdTagEnd::Strikethrough => MdState {
            styles: pop_style(s.styles),
            ..s
        },
        MdTagEnd::CodeBlock => MdState {
            in_code: false,
            styles: pop_style(s.styles),
            segs: s.segs.push(bare(seq!['\n'])),
            ..s
        },
        MdTagEnd::Link => MdState {
            styles: pop_style(s.styles),
            segs: if m.show_links && s.link.len() > 0 && !s.in_table {
                s.segs.push(plain_model(seq![' ', '('] + s.link + seq![')'], Some(dim_style())))
            } else {
                s.segs
            },
            link: Seq::empty(),
            ..s
        },
        MdTagEnd::BlockQuote => MdState { in_quote: false, styles: pop_style(s.styles), ..s },
        MdTagEnd::List => MdState { lists: if s.lists.len() > 0 { s.lists.drop_last() } else { s.lists }, ..s },
        MdTagEnd::Item => MdState { segs: s.segs.push(bare(seq!['\n'])), ..s },
        MdTagEnd::Table => MdState {
            segs: s.segs + table_segs(m, s.header, s.rows, s.aligns),
            in_table: false,
            rows: Seq::empty(),
            header: None,
            ..s
        },
        MdTagEnd::TableHead => MdState { in_head: false, header: Some(s.row), row: Seq::empty(), ..s },
        MdTagEnd::TableRow => if !s.in_head {
            MdState { rows: s.rows.push(s.row), row: Seq::empty(), ..s }
        } else {
            s
        },
        MdTagEnd::TableCell => MdState { row: s.row.push(s.cell), cell: Seq::empty(), ..s },
        MdTagEnd::Paragraph | MdTagEnd::Other => s,
    }
}

/// Code block lines, each indented by two spaces and followed by a newline.
pub open spec fn code_lines(lines: Seq<Seq<char>>, style: Option<StyleModel>) -> Seq<SegmentModel>
    decreases lines.len(),
{
    if lines.len() == 0 {
        Seq::empty()
    } else {
        code_lines(lines.drop_last(), style) + seq![plain_model(seq![' ', ' '] + lines.last(), style), bare(seq!['\n'])]
    }
}

/// The innermost open style, where there is one.
pub open spec fn current_style(s: Seq<StyleModel>) -> Option<StyleModel> {
    if s.len() > 0 { Some(s.last()) } else { None }
}

/// The state after one event: text goes into the current table cell inside
/// a table, and otherwise out as segments in the innermost open style.
pub open spec fn md_step(m: MarkdownModel, s: MdState, e: MdEvent) -> MdState {
    match e {
        MdEvent::Start(tag) => md_start(m, s, tag),
        MdEvent::End(tag) => md_end(m, s, tag),
        MdEvent::Text(t) => if s.in_table {
            MdState { cell: s.cell + t@, ..s }
        } else if s.in_code {
            MdState { segs: s.segs + code_lines(text_lines(t@), current_style(s.styles)), ..s }
        } else {
            MdState { segs: s.segs.push(plain_model(t@, current_style(s.styles))), ..s }
        },
        MdEvent::Code(c) => if s.in_table {
            MdState { cell: s.cell + seq!['`'] + c@ + seq!['`'], ..s }
        } else {
            MdState { segs: s.segs.push(plain_model(seq![' '] + c@ + seq![' '], Some(m.code_style))), ..s }
        },
        MdEvent::SoftBreak => if s.in_table {
            MdState { cell: s.cell.push(' '), ..s }
        } else {
            MdState { segs: s.segs.push(bare(seq![' '])), ..s }
        },
        MdEvent::HardBreak => if s.in_table {
            MdState { cell: s.cell.push(' '), ..s }
        } else {
            MdState { segs: s.segs.push(bare(seq!['\n'])), ..s }
        },
        MdEvent::Rule => MdState {
            segs: s.segs + seq![
                bare(seq!['\n']),
                plain_model(repeat_spec('\u{2500}', 40), Some(dim_style())),
                bare(seq!['\n']),
            ],
            ..s
        },
        MdEvent::Other => s,
    }
}

/// The state after the first `k` events.
pub open spec fn md_run(m: MarkdownModel, events: Seq<MdEvent>, k: nat) -> MdState
    decreases k,
{
    if k == 0 || k > events.len() {
        md_initial()
    } else {
        md_step(m, md_run(m, events, (k - 1) as nat), events[k - 1])
    }
}

/// The rendering of a sequence of events: the segments of the final state.
pub open spec fn render_events_spec(m: MarkdownModel, events: Seq<MdEvent>) -> Seq<SegmentModel> {
    md_run(m, events, events.len()).segs
}

/// Whether every cell of the collected table has a width that leaves room for
/// its borders.
pub open spec fn table_fits(header: Option<Seq<Seq<char>>>, rows: Seq<Seq<Seq<char>>>) -> bool {
    &&& (header matches Some(h) ==> forall|i: int| 0 <= i < h.len() ==> cells(#[trigger] h[i]) + 2 <= usize::MAX)
    &&& forall|r: int, i: int| 0 <= r < rows.len() && 0 <= i < rows[r].len() ==> cells(#[trigger] rows[r][i]) + 2
        <= usize::MAX
}

/// Whether an event can be handled without overflow: a list item's indent
/// and number fit, and a finished table's cells fit.
pub open spec fn md_step_ok(m: MarkdownModel, s: MdState, e: MdEvent) -> bool {
    match e {
        MdEvent::Start(MdTag::Item) => s.lists.len() > 0 ==> {
            &&& (s.lists.len() - 1) * m.list_indent <= usize::MAX
            &&& (s.lists.last().0 ==> s.lists.last().1 < usize::MAX)
        },
        MdEvent::End(MdTagEnd::Table) => table_fits(s.header, s.rows),
        _ => true,
    }
}

/// Whether every event of a sequence can be handled without overflow.
pub open spec fn md_events_ok(m: MarkdownModel, events: Seq<MdEvent>) -> bool {
    forall|k: nat| k < events.len() ==> md_step_ok(m, #[trigger] md_run(m, events, k), events[k as int])
}

/// The number of columns of a collected table: the header's cells, else the
/// first row's.
pub open spec fn md_table_cols(header: Option<Seq<Seq<char>>>, rows: Seq<Seq<Seq<char>>>) -> nat {
    match header {
        Some(h) => h.len(),
        None => if rows.len() > 0 { rows[0].len() } else { 0 },
    }
}

/// The widest cell in column `i` over the rows that have one.
pub open spec fn rows_col_max(rows: Seq<Seq<Seq<char>>>, i: int) -> nat
    decreases rows.len(),
{
    if rows.len() == 0 {
        0
    } else {
        let prev = rows_col_max(rows.drop_last(), i);
        let r = rows.last();
        if 0 <= i < r.len() { max_nat(prev, cells(r[i])) } else { prev }
    }
}

/// The width of column `i`: its widest cell, at least 3.
pub open spec fn md_col_width(header: Option<Seq<Seq<char>>>, rows: Seq<Seq<Seq<char>>>, i: int) -> nat {
    let h = match header {
        Some(h) => if 0 <= i < h.len() { cells(h[i]) } else { 0 },
        None => 0,
    };
    max_nat(max_nat(h, rows_col_max(rows, i)), 3)
}

/// The widths of the `n` columns.
pub open spec fn md_widths(header: Option<Seq<Seq<char>>>, rows: Seq<Seq<Seq<char>>>, n: nat) -> Seq<nat> {
    Seq::new(n, |i: int| md_col_width(header, rows, i))
}

/// A cell's content padded to `width` cells by its alignment; content at
/// least that wide is left as it is.
pub open spec fn pad_cell_spec(content: Seq<char>, width: nat, align: MdAlignment) -> Seq<char> {
    if cells(content) >= width {
        content
    } else {
        let p = (width - cells(content)) as nat;
        match align {
            MdAlignment::Right => spaces(p) + content,
            MdAlignment::Center => spaces(p / 2) + content + spaces((p - p / 2) as nat),
            _ => content + spaces(p),
        }
    }
}

/// The first `k` columns of a table border line.
pub open spec fn md_border_cols(w: Seq<nat>, mid: char, bs: StyleModel, k: nat) -> Seq<SegmentModel>
    decreases k,
{
    if k == 0 || k > w.len() {
        Seq::empty()
    } else {
        md_border_cols(w, mid, bs, (k - 1) as nat) + seq![plain_model(repeat_spec('\u{2500}', w[k - 1] + 2), Some(bs))]
            + (if k < w.len() { seq![char_seg(mid, bs)] } else { Seq::empty() })
    }
}

/// A table border line: the corners around a run of lines for each column,
/// joined by `mid`.
pub open spec fn md_border(w: Seq<nat>, left: char, mid: char, right: char, bs: StyleModel) -> Seq<SegmentModel> {
    seq![char_seg(left, bs)] + md_border_cols(w, mid, bs, w.len()) + seq![char_seg(right, bs), bare(seq!['\n'])]
}

/// Column `i` of a table row: the padded content between spaces, then a
/// border.
pub open spec fn md_row_col(
    m: MarkdownModel,
    w: Seq<nat>,
    cells_: Seq<Seq<char>>,
    aligns: Seq<MdAlignment>,
    is_header: bool,
    i: int,
) -> Seq<SegmentModel> {
    let content = if i < cells_.len() { cells_[i] } else { Seq::empty() };
    let align = if i < aligns.len() { aligns[i] } else { MdAlignment::Unaligned };
    let style = if is_header { Some(m.table_header_style) } else { None };
    seq![
        bare(seq![' ']),
        plain_model(pad_cell_spec(content, w[i], align), style),
        bare(seq![' ']),
        char_seg('\u{2502}', m.table_border_style),
    ]
}

/// The first `k` columns of a table row.
pub open spec fn md_row_cols(
    m: MarkdownModel,
    w: Seq<nat>,
    cells_: Seq<Seq<char>>,
    aligns: Seq<MdAlignment>,
    is_header: bool,
    k: nat,
) -> Seq<SegmentModel>
    decreases k,
{
    if k == 0 {
        Seq::empty()
    } else {
        md_row_cols(m, w, cells_, aligns, is_header, (k - 1) as nat) + md_row_col(m, w, cells_, aligns, is_header, k - 1)
    }
}

/// A table row: a border, each column, and a newline.
pub open spec fn md_row(
    m: MarkdownModel,
    w: Seq<nat>,
    cells_: Seq<Seq<char>>,
    aligns: Seq<MdAlignment>,
    is_header: bool,
) -> Seq<SegmentModel> {
    seq![char_seg('\u{2502}', m.table_border_style)] + md_row_cols(m, w, cells_, aligns, is_header, w.len())
        + seq![bare(seq!['\n'])]
}

/// The first `k` body rows.
pub open spec fn md_body_rows(
    m: MarkdownModel,
    w: Seq<nat>,
    rows: Seq<Seq<Seq<char>>>,
    aligns: Seq<MdAlignment>,
    k: nat,
) -> Seq<SegmentModel>
    decreases k,
{
    if k == 0 || k > rows.len() {
        Seq::empty()
    } else {
        md_body_rows(m, w, rows, aligns, (k - 1) as nat) + md_row(m, w, rows[k - 1], aligns, false)
    }
}

/// A collected table: nothing without columns; otherwise the top border, the
/// header row and a separator where there is a header, the body rows and
/// the bottom border.
pub open spec fn table_segs(
    m: MarkdownModel,
    header: Option<Seq<Seq<char>>>,
    rows: Seq<Seq<Seq<char>>>,
    aligns: Seq<MdAlignment>,
) -> Seq<SegmentModel> {
    let n = md_table_cols(header, rows);
    let w = md_widths(header, rows, n);
    let bs = m.table_border_style;
    if n == 0 {
        Seq::empty()
    } else {
        md_border(w, '\u{250c}', '\u{252c}', '\u{2510}', bs) + match header {
            Some(h) => md_row(m, w, h, aligns, true) + md_border(w, '\u{251c}', '\u{253c}', '\u{2524}', bs),
            None => Seq::empty(),
        } + md_body_rows(m, w, rows, aligns, rows.len()) + md_border(w, '\u{2514}', '\u{2534}', '\u{2518}', bs)
    }
}

/// The values of a sequence of strings.
pub open spec fn strs(v: Seq<String>) -> Seq<Seq<char>> {
    v.map_values(|s: String| s@)
}

/// The values of an optional sequence of strings.
pub open spec fn opt_strs(h: Option<Vec<String>>) -> Option<Seq<Seq<char>>> {
    match h {
        Some(h) => Some(strs(h@)),
        None => None,
    }
}

/// The values of a sequence of rows of strings.
pub open spec fn str_rows(v: Seq<Vec<String>>) -> Seq<Seq<Seq<char>>> {
    v.map_values(|r: Vec<String>| strs(r@))
}

/// The executable rendering state (see `MdState`).
struct MdRender {
    segs: Vec<Segment>,
    styles: Vec<Style>,
    lists: Vec<(bool, usize)>,
    in_code: bool,
    in_quote: bool,
    link: String,
    in_table: bool,
    aligns: Vec<MdAlignment>,
    rows: Vec<Vec<String>>,
    row: Vec<String>,
    cell: String,
    in_head: bool,
    header: Option<Vec<String>>,
}

impl View for MdRender {
    type V = MdState;

    closed spec fn view(&self) -> MdState {
        MdState {
            segs: segs_model(self.segs@),
            styles: style_views(self.styles@),
            lists: self.lists@,
            in_code: self.in_code,
            in_quote: self.in_quote,
            link: self.link@,
            in_table: self.in_table,
            aligns: self.aligns@,
            rows: str_rows(self.rows@),
            row: strs(self.row@),
            cell: self.cell@,
            in_head: self.in_head,
            header: opt_strs(self.header),
        }
    }
}

/// An unstyled segment of a string.
fn bare_segment(t: &str) -> (s: Segment)
    ensures
        s@ == bare(t@),
{
    Segment::new(t, None)
}

/// Appends a segment where there are segments already.
fn push_sep(v: &mut Vec<Segment>, t: &str)
    ensures
        segs_model(final(v)@) == sep_if_any(segs_model(old(v)@), t@),
{
    if v.len() > 0 {
        push_seg(v, bare_segment(t));
    }
}

/// Closes the innermost style, where there is one.
fn pop_style_exec(v: &mut Vec<Style>)
    ensures
        style_views(final(v)@) == pop_style(style_views(old(v)@)),
{
    let ghost prev = v@;
    if v.len() > 0 {
        let _ = v.pop();
        assert(style_views(v@) =~= style_views(prev).drop_last());
    }
}

/// Pushes a style.
fn push_style(v: &mut Vec<Style>, s: Style)
    ensures
        style_views(final(v)@) == style_views(old(v)@).push(s@),
{
    let ghost prev = v@;
    v.push(s);
    assert(style_views(v@) =~= style_views(prev).push(s@));
}

/// Code block lines as segments (see `code_lines`).
fn code_line_segments(lines: &Vec<Vec<char>>, style: &Option<Style>) -> (r: Vec<Segment>)
    ensures
        segs_model(r@) == code_lines(char_vecs(lines@), opt_style_model(*style)),
{
    let ghost cl = char_vecs(lines@);
    let mut out: Vec<Segment> = Vec::new();
    let mut i: usize = 0;
    while i < lines.len()
        invariant
            i <= lines@.len(),
            cl == char_vecs(lines@),
            segs_model(out@) == code_lines(cl.take(i as int), opt_style_model(*style)),
        decreases lines.len() - i,
    {
        let mut t = String::new();
        push_char(&mut t, ' ');
        push_char(&mut t, ' ');
        let ghost lead = t@;
        crate::text_ops::push_chars(&mut t, &lines[i], 0, lines[i].len());
        assert(lines@[i as int]@.subrange(0, lines@[i as int]@.len() as int) =~= lines@[i as int]@);
        assert(t@ =~= seq![' ', ' '] + cl[i as int]);
        let sty = match style {
            Some(s) => Some(s.clone()),
            None => None,
        };
        push_seg(&mut out, Segment::new(t.as_str(), sty));
        push_seg(&mut out, bare_newline());
        assert(cl.take(i + 1).drop_last() =~= cl.take(i as int));
        i += 1;
    }
    assert(cl.take(lines@.len() as int) =~= cl);
    out
}

/// An unstyled newline segment.
fn bare_newline() -> (s: Segment)
    ensures
        s@ == bare(seq!['\n']),
{
    Segment::line()
}

/// A cell's content padded to `width` cells (see `pad_cell_spec`).
fn pad_cell(content: &str, width: usize, align: MdAlignment) -> (s: String)
    requires
        cells(content@) <= usize::MAX,
    ensures
        s@ == pad_cell_spec(content@, width as nat, align),
{
    let len = cell_len(content);
    if len >= width {
        return owned(content);
    }
    let p = width - len;
    match align {
        MdAlignment::Right => {
            let mut s = repeat_char(' ', p);
            push_str(&mut s, content);
            s
        },
        MdAlignment::Center => {
            let mut s = repeat_char(' ', p / 2);
            push_str(&mut s, content);
            push_repeat(&mut s, ' ', p - p / 2);
            s
        },
        _ => {
            let mut s = owned(content);
            push_repeat(&mut s, ' ', p);
            s
        },
    }
}

/// The widths of the columns of a collected table (see `md_widths`).
fn md_table_widths(header: &Option<Vec<String>>, rows: &Vec<Vec<String>>, n: usize) -> (w: Vec<usize>)
    requires
        n == md_table_cols(
            opt_strs(*header),
            str_rows(rows@),
        ),
        table_fits(opt_strs(*header), str_rows(rows@)),
    ensures
        w@.len() == n,
        forall|i: int| 0 <= i < n ==> #[trigger] w@[i] as nat == md_col_width(
            opt_strs(*header),
            str_rows(rows@),
            i,
        ),
        forall|i: int| 0 <= i < n ==> #[trigger] w@[i] + 2 <= usize::MAX,
{
    let ghost hv = opt_strs(*header);
    let ghost rv = str_rows(rows@);
    let mut w: Vec<usize> = Vec::new();
    let mut i: usize = 0;
    while i < n
        invariant
            i <= n,
            hv == (opt_strs(*header)),
            rv == str_rows(rows@),
            table_fits(hv, rv),
            w@.len() == i,
            forall|k: int| 0 <= k < i ==> #[trigger] w@[k] as nat == md_col_width(hv, rv, k),
            forall|k: int| 0 <= k < i ==> #[trigger] w@[k] + 2 <= usize::MAX,
        decreases n - i,
    {
        let mut best: usize = 0;
        let ghost hw: nat = 0;
        match header {
            Some(h) => {
                if i < h.len() {
                    assert(strs(h@)[i as int] == h@[i as int]@);
                    best = cell_len(h[i].as_str());
                    proof { hw = best as nat; }
                }
            },
            None => {},
        }
        assert(hw == match hv { Some(hh) => if 0 <= i < hh.len() { cells(hh[i as int]) } else { 0 }, None => 0nat });
        let ghost head = best as nat;
        let mut r: usize = 0;
        while r < rows.len()
            invariant
                r <= rows@.len(),
                rv == str_rows(rows@),
                table_fits(hv, rv),
                best as nat == max_nat(head, rows_col_max(rv.take(r as int), i as int)),
                best + 2 <= usize::MAX,
            decreases rows.len() - r,
        {
            assert(rv.take(r + 1).drop_last() =~= rv.take(r as int));
            assert(rv[r as int] == strs(rows@[r as int]@));
            if i < rows[r].len() {
                assert(rv[r as int][i as int] == rows@[r as int]@[i as int]@);
                let c = cell_len(rows[r][i].as_str());
                if c > best {
                    best = c;
                }
            }
            r += 1;
        }
        assert(rv.take(rows@.len() as int) =~= rv);
        if best < 3 {
            best = 3;
        }
        let ghost prev = w@;
        w.push(best);
        assert(w@[i as int] as nat == md_col_width(hv, rv, i as int));
        assert(forall|k: int| 0 <= k < i ==> w@[k] == prev[k]);
        i += 1;
    }
    w
}

impl Markdown {
    /// A border line of a collected table (see `md_border`).
    fn border_line(&self, w: &Vec<usize>, left: char, mid: char, right: char) -> (r: Vec<Segment>)
        requires
            forall|i: int| 0 <= i < w@.len() ==> #[trigger] w@[i] + 2 <= usize::MAX,
        ensures
            segs_model(r@) == md_border(w@.map_values(|x: usize| x as nat), left, mid, right, self@.table_border_style),
    {
        let ghost wn = w@.map_values(|x: usize| x as nat);
        let ghost bs = self@.table_border_style;
        let n = w.len();
        let mut out: Vec<Segment> = Vec::new();
        push_seg(&mut out, char_segment(left, &self.table_border_style));
        let ghost start = segs_model(out@);
        let mut i: usize = 0;
        while i < n
            invariant
                i <= n,
                n == w@.len(),
                wn == w@.map_values(|x: usize| x as nat),
                bs == self@.table_border_style,
                forall|k: int| 0 <= k < w@.len() ==> #[trigger] w@[k] + 2 <= usize::MAX,
                segs_model(out@) == start + md_border_cols(wn, mid, bs, i as nat),
            decreases n - i,
        {
            let ghost before = segs_model(out@);
            let run = repeat_char('\u{2500}', w[i] + 2);
            push_seg(&mut out, Segment::new(run.as_str(), Some(self.table_border_style.clone())));
            if i + 1 < n {
                push_seg(&mut out, char_segment(mid, &self.table_border_style));
            }
            assert(wn[i as int] == w@[i as int] as nat);
            assert(segs_model(out@) =~= before + (seq![plain_model(repeat_spec('\u{2500}', wn[i as int] + 2), Some(bs))]
                + (if i + 1 < n { seq![char_seg(mid, bs)] } else { Seq::empty() })));
            i += 1;
        }
        push_seg(&mut out, char_segment(right, &self.table_border_style));
        push_seg(&mut out, bare_newline());
        assert(segs_model(out@) =~= md_border(wn, left, mid, right, bs));
        out
    }

    /// A row of a collected table (see `md_row`).
    fn table_row(&self, w: &Vec<usize>, row: &Vec<String>, aligns: &Vec<MdAlignment>, is_header: bool) -> (r: Vec<Segment>)
        requires
            forall|i: int| 0 <= i < row@.len() ==> cells(#[trigger] row@[i]@) <= usize::MAX,
        ensures
            segs_model(r@) == md_row(self@, w@.map_values(|x: usize| x as nat), strs(row@), aligns@, is_header),
    {
        let ghost wn = w@.map_values(|x: usize| x as nat);
        let ghost m = self@;
        let n = w.len();
        let mut out: Vec<Segment> = Vec::new();
        push_seg(&mut out, char_segment('\u{2502}', &self.table_border_style));
        let ghost start = segs_model(out@);
        let mut i: usize = 0;
        while i < n
            invariant
                i <= n,
                n == w@.len(),
                wn == w@.map_values(|x: usize| x as nat),
                m == self@,
                forall|k: int| 0 <= k < row@.len() ==> cells(#[trigger] row@[k]@) <= usize::MAX,
                segs_model(out@) == start + md_row_cols(m, wn, strs(row@), aligns@, is_header, i as nat),
            decreases n - i,
        {
            let ghost before = segs_model(out@);
            let empty = String::new();
            let content: &str = if i < row.len() { row[i].as_str() } else { empty.as_str() };
            let align = if i < aligns.len() { aligns[i] } else { MdAlignment::Unaligned };
            proof {
                if i < row@.len() {
                    assert(strs(row@)[i as int] == row@[i as int]@);
                }
            }
            let padded = pad_cell(content, w[i], align);
            push_seg(&mut out, Segment::new(" ", None));
            let style = if is_header { Some(self.table_header_style.clone()) } else { None };
            push_seg(&mut out, Segment::new(padded.as_str(), style));
            push_seg(&mut out, Segment::new(" ", None));
            push_seg(&mut out, char_segment('\u{2502}', &self.table_border_style));
            proof {
                reveal_strlit(" ");
                assert(" "@ =~= seq![' ']);
                assert(wn[i as int] == w@[i as int] as nat);
                assert(segs_model(out@) =~= before + md_row_col(m, wn, strs(row@), aligns@, is_header, i as int));
            }
            i += 1;
        }
        push_seg(&mut out, bare_newline());
        assert(segs_model(out@) =~= md_row(m, wn, strs(row@), aligns@, is_header));
        out
    }

    /// A collected table (see `table_segs`).
    fn render_table(&self, header: &Option<Vec<String>>, rows: &Vec<Vec<String>>, aligns: &Vec<MdAlignment>) -> (r: Vec<Segment>)
        requires
            table_fits(opt_strs(*header), str_rows(rows@)),
        ensures
            segs_model(r@) == table_segs(
                self@,
                opt_strs(*header),
                str_rows(rows@),
                aligns@,
            ),
    {
        let ghost hv = opt_strs(*header);
        let ghost rv = str_rows(rows@);
        let ghost m = self@;
        let n = match header {
            Some(h) => h.len(),
            None => if rows.len() > 0 { rows[0].len() } else { 0 },
        };
        proof {
            if header is None && rows@.len() > 0 {
                assert(rv[0] == strs(rows@[0]@));
            }
        }
        if n == 0 {
            return Vec::new();
        }
        let w = md_table_widths(header, rows, n);
        let ghost wn = w@.map_values(|x: usize| x as nat);
        assert(wn =~= md_widths(hv, rv, n as nat));
        let mut out = self.border_line(&w, '\u{250c}', '\u{252c}', '\u{2510}');
        match header {
            Some(h) => {
                assert forall|i: int| 0 <= i < h@.len() implies cells(#[trigger] h@[i]@) <= usize::MAX by {
                    assert(strs(h@)[i] == h@[i]@);
                }
                push_segs(&mut out, self.table_row(&w, h, aligns, true));
                push_segs(&mut out, self.border_line(&w, '\u{251c}', '\u{253c}', '\u{2524}'));
            },
            None => {},
        }
        let ghost p = segs_model(out@);
        let mut r: usize = 0;
        while r < rows.len()
            invariant
                r <= rows@.len(),
                rv == str_rows(rows@),
                m == self@,
                table_fits(hv, rv),
                wn == w@.map_values(|x: usize| x as nat),
                forall|i: int| 0 <= i < w@.len() ==> #[trigger] w@[i] + 2 <= usize::MAX,
                segs_model(out@) == p + md_body_rows(m, wn, rv, aligns@, r as nat),
            decreases rows.len() - r,
        {
            assert(rv[r as int] == strs(rows@[r as int]@));
            assert forall|i: int| 0 <= i < rows@[r as int]@.len() implies cells(#[trigger] rows@[r as int]@[i]@) <= usize::MAX by {
                assert(strs(rows@[r as int]@)[i] == rows@[r as int]@[i]@);
            }
            push_segs(&mut out, self.table_row(&w, &rows[r], aligns, false));
            r += 1;
            assert(segs_model(out@) =~= p + md_body_rows(m, wn, rv, aligns@, r as nat));
        }
        push_segs(&mut out, self.border_line(&w, '\u{2514}', '\u{2534}', '\u{2518}'));
        assert(segs_model(out@) =~= table_segs(m, hv, rv, aligns@));
        out
    }
}

impl Markdown {
    /// Handles the start of an element (see `md_start`).
    fn start_tag(&self, st: &mut MdRender, tag: &MdTag)
        requires
            md_step_ok(self@, old(st)@, MdEvent::Start(*tag)),
        ensures
            final(st)@ == md_start(self@, old(st)@, *tag),
    {
        let ghost m = self@;
        let ghost s = st@;
        match tag {
            MdTag::Heading(level) => {
                push_sep(&mut st.segs, "\n\n");
                proof { reveal_strlit("\n\n"); assert("\n\n"@ =~= seq!['\n', '\n']); }
                let style = if *level == 1 {
                    self.h1_style.clone()
                } else if *level == 2 {
                    self.h2_style.clone()
                } else if *level == 3 {
                    self.h3_style.clone()
                } else {
                    self.h4_style.clone()
                };
                push_style(&mut st.styles, style);
            },
            MdTag::Paragraph => {
                if !st.in_quote && !st.in_table {
                    push_sep(&mut st.segs, "\n\n");
                    proof { reveal_strlit("\n\n"); assert("\n\n"@ =~= seq!['\n', '\n']); }
                }
            },
            MdTag::Emphasis => push_style(&mut st.styles, self.emphasis_style.clone()),
            MdTag::Strong => push_style(&mut st.styles, self.strong_style.clone()),
            MdTag::Strikethrough => push_style(&mut st.styles, self.strikethrough_style.clone()),
            MdTag::CodeBlock => {
                st.in_code = true;
                push_sep(&mut st.segs, "\n");
                proof { reveal_strlit("\n"); assert("\n"@ =~= seq!['\n']); }
                push_style(&mut st.styles, self.code_block_style.clone());
            },
            MdTag::Link(dest) => {
                st.link = dest.clone();
                push_style(&mut st.styles, self.link_style.clone());
            },
            MdTag::BlockQuote => {
                st.in_quote = true;
                push_sep(&mut st.segs, "\n");
                proof {
                    reveal_strlit("\n");
                    assert("\n"@ =~= seq!['\n']);
                    reveal_strlit("\u{2502} ");
                    assert("\u{2502} "@ =~= seq!['\u{2502}', ' ']);
                }
                push_seg(&mut st.segs, Segment::new("\u{2502} ", Some(self.quote_style.clone())));
                push_style(&mut st.styles, self.quote_style.clone());
            },
            MdTag::List(start) => {
                push_sep(&mut st.segs, "\n");
                proof { reveal_strlit("\n"); assert("\n"@ =~= seq!['\n']); }
                let entry = match start {
                    Some(n) => (true, #[verifier::truncate] (*n as usize)),
                    None => (false, 1usize),
                };
                st.lists.push(entry);
            },
            MdTag::Item => {
                let depth = if st.lists.len() > 0 { st.lists.len() - 1 } else { 0 };
                let indent = repeat_char(' ', depth * self.list_indent);
                let ghost iv = indent@;
                assert(iv == spaces(depth as nat * (m.list_indent as nat)));
                push_seg(&mut st.segs, bare_segment(indent.as_str()));
                let ghost after_indent = segs_model(st.segs@);
                assert(after_indent =~= s.segs + seq![bare(iv)]);
                if st.lists.len() > 0 {
                    let last = st.lists.len() - 1;
                    let (ordered, num) = st.lists[last];
                    assert((ordered, num) == s.lists.last());
                    if ordered {
                        let mut t = decimal_string(num);
                        push_char(&mut t, '.');
                        push_char(&mut t, ' ');
                        assert(t@ =~= decimal(num as nat) + seq!['.', ' ']);
                        push_seg(&mut st.segs, bare_segment(t.as_str()));
                        st.lists.set(last, (true, num + 1));
                    } else {
                        let mut t = String::new();
                        push_char(&mut t, self.bullet_char);
                        push_char(&mut t, ' ');
                        assert(t@ =~= seq![m.bullet_char, ' ']);
                        push_seg(&mut st.segs, bare_segment(t.as_str()));
                    }
                }
                assert(segs_model(st.segs@) =~= s.segs + item_prefix(m, s.lists));
            },
            MdTag::Table(aligns) => {
                st.in_table = true;
                st.aligns = aligns.clone();
                st.rows = Vec::new();
                st.header = None;
                push_sep(&mut st.segs, "\n");
                proof { reveal_strlit("\n"); assert("\n"@ =~= seq!['\n']); }
                assert(str_rows(st.rows@) =~= Seq::<Seq<Seq<char>>>::empty());
            },
            MdTag::TableHead => {
                st.in_head = true;
                st.row = Vec::new();
                assert(strs(st.row@) =~= Seq::<Seq<char>>::empty());
            },
            MdTag::TableRow => {
                st.row = Vec::new();
                assert(strs(st.row@) =~= Seq::<Seq<char>>::empty());
            },
            MdTag::TableCell => {
                st.cell = String::new();
            },
            MdTag::Other => {},
        }
    }

    /// Handles the end of an element (see `md_end`).
    fn end_tag(&self, st: &mut MdRender, tag: MdTagEnd)
        requires
            md_step_ok(self@, old(st)@, MdEvent::End(tag)),
        ensures
            final(st)@ == md_end(self@, old(st)@, tag),
    {
        let ghost m = self@;
        let ghost s = st@;
        match tag {
            MdTagEnd::Heading | MdTagEnd::Emphasis | MdTagEnd::Strong | MdTagEnd::Strikethrough => {
                pop_style_exec(&mut st.styles);
            },
            MdTagEnd::CodeBlock => {
                st.in_code = false;
                pop_style_exec(&mut st.styles);
                push_seg(&mut st.segs, bare_newline());
            },
            MdTagEnd::Link => {
                pop_style_exec(&mut st.styles);
                if self.show_links && !st.link.as_str().is_empty() && !st.in_table {
                    let mut t = String::new();
                    push_char(&mut t, ' ');
                    push_char(&mut t, '(');
                    push_str(&mut t, st.link.as_str());
                    push_char(&mut t, ')');
                    assert(t@ =~= seq![' ', '('] + s.link + seq![')']);
                    let dim = with_color_or_default(Style::new(), "bright_black");
                    push_seg(&mut st.segs, Segment::new(t.as_str(), Some(dim)));
                }
                st.link = String::new();
            },
            MdTagEnd::BlockQuote => {
                st.in_quote = false;
                pop_style_exec(&mut st.styles);
            },
            MdTagEnd::List => {
                if st.lists.len() > 0 {
                    let _ = st.lists.pop();
                }
            },
            MdTagEnd::Item => {
                push_seg(&mut st.segs, bare_newline());
            },
            MdTagEnd::Table => {
                let table = self.render_table(&st.header, &st.rows, &st.aligns);
                push_segs(&mut st.segs, table);
                st.in_table = false;
                st.rows = Vec::new();
                st.header = None;
                assert(str_rows(st.rows@) =~= Seq::<Seq<Seq<char>>>::empty());
            },
            MdTagEnd::TableHead => {
                st.in_head = false;
                let mut row: Vec<String> = Vec::new();
                    std::mem::swap(&mut row, &mut st.row);
                st.header = Some(row);
                assert(strs(st.row@) =~= Seq::<Seq<char>>::empty());
            },
            MdTagEnd::TableRow => {
                if !st.in_head {
                    let mut row: Vec<String> = Vec::new();
                    std::mem::swap(&mut row, &mut st.row);
                    let ghost prev = st.rows@;
                    st.rows.push(row);
                    assert(str_rows(st.rows@) =~= str_rows(prev).push(s.row));
                    assert(strs(st.row@) =~= Seq::<Seq<char>>::empty());
                }
            },
            MdTagEnd::TableCell => {
                let mut cell = String::new();
                std::mem::swap(&mut cell, &mut st.cell);
                let ghost prev = st.row@;
                st.row.push(cell);
                assert(strs(st.row@) =~= strs(prev).push(s.cell));
            },
            MdTagEnd::Paragraph | MdTagEnd::Other => {},
        }
    }

    /// Handles one event (see `md_step`).
    fn step(&self, st: &mut MdRender, e: &MdEvent)
        requires
            md_step_ok(self@, old(st)@, *e),
        ensures
            final(st)@ == md_step(self@, old(st)@, *e),
    {
        let ghost s = st@;
        match e {
            MdEvent::Start(tag) => self.start_tag(st, tag),
            MdEvent::End(tag) => self.end_tag(st, *tag),
            MdEvent::Text(t) => {
                if st.in_table {
                    push_str(&mut st.cell, t.as_str());
                } else {
                    let cur = if st.styles.len() > 0 { Some(st.styles[st.styles.len() - 1].clone()) } else { None };
                    assert(opt_style_model(cur) == current_style(s.styles));
                    if st.in_code {
                        let lines = text_lines_exec(t.as_str());
                        push_segs(&mut st.segs, code_line_segments(&lines, &cur));
                    } else {
                        push_seg(&mut st.segs, Segment::new(t.as_str(), cur));
                    }
                }
            },
            MdEvent::Code(c) => {
                if st.in_table {
                    push_char(&mut st.cell, '`');
                    push_str(&mut st.cell, c.as_str());
                    push_char(&mut st.cell, '`');
                    assert(st.cell@ =~= s.cell + seq!['`'] + c@ + seq!['`']);
                } else {
                    let mut t = String::new();
                    push_char(&mut t, ' ');
                    push_str(&mut t, c.as_str());
                    push_char(&mut t, ' ');
                    assert(t@ =~= seq![' '] + c@ + seq![' ']);
                    push_seg(&mut st.segs, Segment::new(t.as_str(), Some(self.code_style.clone())));
                }
            },
            MdEvent::SoftBreak => {
                if st.in_table {
                    push_char(&mut st.cell, ' ');
                } else {
                    push_seg(&mut st.segs, Segment::new(" ", None));
                    proof { reveal_strlit(" "); assert(" "@ =~= seq![' ']); }
                }
            },
            MdEvent::HardBreak => {
                if st.in_table {
                    push_char(&mut st.cell, ' ');
                } else {
                    push_seg(&mut st.segs, bare_newline());
                }
            },
            MdEvent::Rule => {
                push_seg(&mut st.segs, bare_newline());
                let line = repeat_char('\u{2500}', 40);
                let dim = with_color_or_default(Style::new(), "bright_black");
                push_seg(&mut st.segs, Segment::new(line.as_str(), Some(dim)));
                push_seg(&mut st.segs, bare_newline());
                assert(segs_model(st.segs@) =~= s.segs + seq![
                    bare(seq!['\n']),
                    plain_model(repeat_spec('\u{2500}', 40), Some(dim_style())),
                    bare(seq!['\n']),
                ]);
            },
            MdEvent::Other => {},
        }
    }

    /// Render the events of a parsed document (see `render_events_spec`).
    pub fn render_events(&self, events: &Vec<MdEvent>) -> (r: Vec<Segment>)
        requires
            md_events_ok(self@, events@),
        ensures
            segs_model(r@) == render_events_spec(self@, events@),
    {
        let mut st = MdRender {
            segs: Vec::new(),
            styles: Vec::new(),
            lists: Vec::new(),
            in_code: false,
            in_quote: false,
            link: String::new(),
            in_table: false,
            aligns: Vec::new(),
            rows: Vec::new(),
            row: Vec::new(),
            cell: String::new(),
            in_head: false,
            header: None,
        };
        assert(st@ == md_initial()) by {
            assert(segs_model(st.segs@) =~= Seq::<SegmentModel>::empty());
            assert(style_views(st.styles@) =~= Seq::<StyleModel>::empty());
            assert(str_rows(st.rows@) =~= Seq::<Seq<Seq<char>>>::empty());
            assert(strs(st.row@) =~= Seq::<Seq<char>>::empty());
        }
        let mut k: usize = 0;
        while k < events.len()
            invariant
                k <= events@.len(),
                md_events_ok(self@, events@),
                st@ == md_run(self@, events@, k as nat),
            decreases events.len() - k,
        {
            assert(md_step_ok(self@, md_run(self@, events@, k as nat), events@[k as int]));
            self.step(&mut st, &events[k]);
            k += 1;
        }
        st.segs
    }
}

/// Whether every string of a list is at most `usize::MAX - 2` cells wide.
fn strings_fit(v: &Vec<String>) -> (r: bool)
    ensures
        r == forall|i: int| 0 <= i < v@.len() ==> cells(#[trigger] strs(v@)[i]) + 2 <= usize::MAX,
{
    let mut i: usize = 0;
    while i < v.len()
        invariant
            i <= v@.len(),
            forall|j: int| 0 <= j < i ==> cells(#[trigger] strs(v@)[j]) + 2 <= usize::MAX,
        decreases v.len() - i,
    {
        let w = cell_len_saturating(v[i].as_str());
        assert(strs(v@)[i as int] == v@[i as int]@);
        if w > usize::MAX - 2 {
            return false;
        }
        i += 1;
    }
    true
}

impl Markdown {
    /// Whether a step can be handled without overflow (see `md_step_ok`).
    fn step_ok(&self, st: &MdRender, e: &MdEvent) -> (r: bool)
        ensures
            r == md_step_ok(self@, st@, *e),
    {
        match e {
            MdEvent::Start(MdTag::Item) => {
                let n = st.lists.len();
                if n == 0 {
                    return true;
                }
                let depth = (n - 1) as u128;
                let ind = self.list_indent as u128;
                assert(depth * ind <= usize::MAX * usize::MAX) by (nonlinear_arith)
                    requires depth <= usize::MAX, ind <= usize::MAX;
                let indent_ok = depth * ind <= usize::MAX as u128;
                let (ordered, next) = st.lists[n - 1];
                assert(st@.lists.last() == (ordered, next));
                assert(st@.lists.len() - 1 == depth);
                assert(self@.list_indent == ind);
                indent_ok && (!ordered || next < usize::MAX)
            },
            MdEvent::End(MdTagEnd::Table) => {
                match &st.header {
                    Some(h) => {
                        if !strings_fit(h) {
                            let ghost hv = strs(h@);
                            let ghost i = choose|i: int| 0 <= i < hv.len() && !(cells(#[trigger] hv[i]) + 2 <= usize::MAX);
                            assert(st@.header == Some(hv));
                            assert(!(cells(hv[i]) + 2 <= usize::MAX));
                            assert(!table_fits(st@.header, st@.rows)) by {
                                if table_fits(st@.header, st@.rows) {
                                    let hh = st@.header->0;
                                    assert(hh == hv);
                                    assert(forall|j: int| 0 <= j < hh.len() ==> cells(#[trigger] hh[j]) + 2 <= usize::MAX);
                                    assert(cells(hh[i]) + 2 <= usize::MAX);
                                }
                            }
                            return false;
                        }
                    },
                    None => {},
                }
                let mut r: usize = 0;
                while r < st.rows.len()
                    invariant
                        r <= st.rows@.len(),
                        *e == MdEvent::End(MdTagEnd::Table),
                        forall|a: int, i: int|
                            0 <= a < r && 0 <= i < str_rows(st.rows@)[a].len() ==> cells(
                                #[trigger] str_rows(st.rows@)[a][i],
                            ) + 2 <= usize::MAX,
                    decreases st.rows.len() - r,
                {
                    let ok = strings_fit(&st.rows[r]);
                    assert(str_rows(st.rows@)[r as int] == strs(st.rows@[r as int]@));
                    if !ok {
                        let ghost row = strs(st.rows@[r as int]@);
                        let ghost i = choose|i: int| 0 <= i < row.len() && !(cells(#[trigger] row[i]) + 2 <= usize::MAX);
                        assert(0 <= i < str_rows(st.rows@)[r as int].len());
                        assert(st@.rows == str_rows(st.rows@));
                        assert(!(cells(str_rows(st.rows@)[r as int][i]) + 2 <= usize::MAX));
                        assert(!table_fits(st@.header, st@.rows)) by {
                            if table_fits(st@.header, st@.rows) {
                                let rr = st@.rows;
                                assert(forall|a: int, j: int| 0 <= a < rr.len() && 0 <= j < rr[a].len() ==> cells(#[trigger] rr[a][j]) + 2 <= usize::MAX);
                                assert(cells(rr[r as int][i]) + 2 <= usize::MAX);
                            }
                        }
                        return false;
                    }
                    r += 1;
                }
                true
            },
            _ => true,
        }
    }

    /// Render the events of a parsed document (see `render_events_spec`), or
    /// `None` where a step would overflow (see `md_events_ok`).
    pub fn checked_render_events(&self, events: &Vec<MdEvent>) -> (r: Option<Vec<Segment>>)
        ensures
            r is Some <==> md_events_ok(self@, events@),
            r matches Some(v) ==> segs_model(v@) == render_events_spec(self@, events@),
    {
        let mut st = MdRender {
            segs: Vec::new(),
            styles: Vec::new(),
            lists: Vec::new(),
            in_code: false,
            in_quote: false,
            link: String::new(),
            in_table: false,
            aligns: Vec::new(),
            rows: Vec::new(),
            row: Vec::new(),
            cell: String::new(),
            in_head: false,
            header: None,
        };
        assert(st@ == md_initial()) by {
            assert(segs_model(st.segs@) =~= Seq::<SegmentModel>::empty());
            assert(style_views(st.styles@) =~= Seq::<StyleModel>::empty());
            assert(str_rows(st.rows@) =~= Seq::<Seq<Seq<char>>>::empty());
            assert(strs(st.row@) =~= Seq::<Seq<char>>::empty());
        }
        let mut k: usize = 0;
        while k < events.len()
            invariant
                k <= events@.len(),
                forall|j: nat| j < k ==> md_step_ok(self@, #[trigger] md_run(self@, events@, j), events@[j as int]),
                st@ == md_run(self@, events@, k as nat),
            decreases events.len() - k,
        {
            if !self.step_ok(&st, &events[k]) {
                assert(!md_step_ok(self@, md_run(self@, events@, k as nat), events@[k as int]));
                return None;
            }
            self.step(&mut st, &events[k]);
            k += 1;
        }
        Some(st.segs)
    }
}

/// The width of a table line for columns of widths `w`: one border, then per
/// column its width, two spaces and a border.
pub open spec fn md_line_width(w: Seq<nat>) -> nat
    decreases w.len(),
{
    if w.len() == 0 { 1 } else { md_line_width(w.drop_last()) + w.last() + 3 }
}

/// A padded cell is exactly as wide as its column where the content fits.
proof fn lemma_pad_cell_cells(content: Seq<char>, width: nat, align: MdAlignment)
    requires
        crate::cells::char_cells(' ') == 1,
        cells(content) <= width,
    ensures
        cells(pad_cell_spec(content, width, align)) == width,
{
    if cells(content) < width {
        let p = (width - cells(content)) as nat;
        crate::cells::lemma_cells_repeat(' ', p);
        crate::cells::lemma_cells_repeat(' ', p / 2);
        crate::cells::lemma_cells_repeat(' ', (p - p / 2) as nat);
        crate::cells::lemma_cells_concat(spaces(p), content);
        crate::cells::lemma_cells_concat(content, spaces(p));
        crate::cells::lemma_cells_concat(spaces(p / 2), content);
        crate::cells::lemma_cells_concat(spaces(p / 2) + content, spaces((p - p / 2) as nat));
    }
}

/// The width of the first `k` columns of a row whose cells fit.
proof fn lemma_row_cols_width(
    m: MarkdownModel,
    w: Seq<nat>,
    cells_: Seq<Seq<char>>,
    aligns: Seq<MdAlignment>,
    is_header: bool,
    k: nat,
)
    requires
        k <= w.len(),
        crate::cells::char_cells(' ') == 1,
        crate::cells::char_cells('\u{2502}') == 1,
        forall|i: int| 0 <= i < w.len() && i < cells_.len() ==> cells(#[trigger] cells_[i]) <= w[i],
    ensures
        crate::segment::line_cells(md_row_cols(m, w, cells_, aligns, is_header, k)) + 1 == md_line_width(w.take(k as int)),
    decreases k,
{
    if k > 0 {
        lemma_row_cols_width(m, w, cells_, aligns, is_header, (k - 1) as nat);
        let i = k - 1;
        let content = if i < cells_.len() { cells_[i] } else { Seq::empty() };
        let align = if i < aligns.len() { aligns[i] } else { MdAlignment::Unaligned };
        let style = if is_header { Some(m.table_header_style) } else { None };
        assert(cells(Seq::<char>::empty()) == 0);
        lemma_pad_cell_cells(content, w[i], align);
        let a = seq![bare(seq![' '])];
        let b = seq![plain_model(pad_cell_spec(content, w[i], align), style)];
        let c = seq![char_seg('\u{2502}', m.table_border_style)];
        assert(md_row_col(m, w, cells_, aligns, is_header, i) =~= a + b + a + c);
        crate::cells::lemma_cells_single(' ');
        crate::renderables::panel::lemma_line_cells_one(bare(seq![' ']));
        crate::renderables::panel::lemma_line_cells_one(plain_model(pad_cell_spec(content, w[i], align), style));
        crate::renderables::panel::lemma_char_seg_cells('\u{2502}', m.table_border_style);
        crate::renderables::panel::lemma_line_cells_concat(a, b);
        crate::renderables::panel::lemma_line_cells_concat(a + b, a);
        crate::renderables::panel::lemma_line_cells_concat(a + b + a, c);
        crate::renderables::panel::lemma_line_cells_concat(
            md_row_cols(m, w, cells_, aligns, is_header, (k - 1) as nat),
            md_row_col(m, w, cells_, aligns, is_header, i),
        );
        assert(w.take(k as int).drop_last() =~= w.take(i));
    } else {
        assert(w.take(0) =~= Seq::<nat>::empty());
    }
}

/// Every row of a markdown table whose cells fit their columns is, without
/// its line break, `md_line_width` cells wide: one border, then per column its
/// width, two spaces and a border (spaces and borders being one cell wide).
pub proof fn law_md_row_width(
    m: MarkdownModel,
    w: Seq<nat>,
    cells_: Seq<Seq<char>>,
    aligns: Seq<MdAlignment>,
    is_header: bool,
)
    requires
        crate::cells::char_cells(' ') == 1,
        crate::cells::char_cells('\u{2502}') == 1,
        forall|i: int| 0 <= i < w.len() && i < cells_.len() ==> cells(#[trigger] cells_[i]) <= w[i],
    ensures
        crate::segment::line_cells(md_row(m, w, cells_, aligns, is_header).drop_last()) == md_line_width(w),
{
    lemma_row_cols_width(m, w, cells_, aligns, is_header, w.len());
    assert(w.take(w.len() as int) =~= w);
    let c = seq![char_seg('\u{2502}', m.table_border_style)];
    let cols = md_row_cols(m, w, cells_, aligns, is_header, w.len());
    assert(md_row(m, w, cells_, aligns, is_header).drop_last() =~= c + cols);
    crate::renderables::panel::lemma_char_seg_cells('\u{2502}', m.table_border_style);
    crate::renderables::panel::lemma_line_cells_concat(c, cols);
}

/// The width of the first `k` columns of a border line.
proof fn lemma_border_cols_width(w: Seq<nat>, mid: char, bs: StyleModel, k: nat)
    requires
        0 < w.len(),
        k <= w.len(),
        crate::cells::char_cells(mid) == 1,
        crate::cells::char_cells('\u{2500}') == 1,
    ensures
        crate::segment::line_cells(md_border_cols(w, mid, bs, k)) + 1 + (if k == w.len() { 1nat } else { 0nat })
            == md_line_width(w.take(k as int)),
    decreases k,
{
    if k > 0 {
        lemma_border_cols_width(w, mid, bs, (k - 1) as nat);
        let run = seq![plain_model(repeat_spec('\u{2500}', w[k - 1] + 2), Some(bs))];
        let tail: Seq<SegmentModel> = if k < w.len() { seq![char_seg(mid, bs)] } else { Seq::empty() };
        crate::cells::lemma_cells_repeat('\u{2500}', w[k - 1] + 2);
        crate::renderables::panel::lemma_line_cells_one(plain_model(repeat_spec('\u{2500}', w[k - 1] + 2), Some(bs)));
        crate::renderables::panel::lemma_char_seg_cells(mid, bs);
        assert(crate::segment::line_cells(Seq::<SegmentModel>::empty()) == 0);
        let prev = md_border_cols(w, mid, bs, (k - 1) as nat);
        crate::renderables::panel::lemma_line_cells_concat(prev, run);
        crate::renderables::panel::lemma_line_cells_concat(prev + run, tail);
        assert(w.take(k as int).drop_last() =~= w.take(k - 1));
    } else {
        assert(w.take(0) =~= Seq::<nat>::empty());
    }
}

/// Every border line of a markdown table with columns is, without its line
/// break, as wide as its rows: `md_line_width` cells (border characters being
/// one cell wide).
pub proof fn law_md_border_width(w: Seq<nat>, left: char, mid: char, right: char, bs: StyleModel)
    requires
        0 < w.len(),
        crate::cells::char_cells(left) == 1,
        crate::cells::char_cells(mid) == 1,
        crate::cells::char_cells(right) == 1,
        crate::cells::char_cells('\u{2500}') == 1,
    ensures
        crate::segment::line_cells(md_border(w, left, mid, right, bs).drop_last()) == md_line_width(w),
{
    lemma_border_cols_width(w, mid, bs, w.len());
    assert(w.take(w.len() as int) =~= w);
    let l = seq![char_seg(left, bs)];
    let r = seq![char_seg(right, bs)];
    let cols = md_border_cols(w, mid, bs, w.len());
    assert(md_border(w, left, mid, right, bs).drop_last() =~= l + cols + r);
    crate::renderables::panel::lemma_char_seg_cells(left, bs);
    crate::renderables::panel::lemma_char_seg_cells(right, bs);
    crate::renderables::panel::lemma_line_cells_concat(l, cols);
    crate::renderables::panel::lemma_line_cells_concat(l + cols, r);
}

/// A table cell narrower than its column is its content with spaces before
/// and after that make up the column width: all after for left-aligned and
/// unaligned columns, all before for right-aligned ones, and split so that
/// the two sides differ by at most one (the odd one after) for centered ones.
/// A cell at least as wide as its column is left as it is.
pub proof fn law_md_cell_alignment(content: Seq<char>, width: nat, align: MdAlignment)
    ensures
        cells(content) >= width ==> pad_cell_spec(content, width, align) == content,
        cells(content) < width ==> exists|before: nat, after: nat|
            {
                &&& pad_cell_spec(content, width, align) == spaces(before) + content + spaces(after)
                &&& before + cells(content) + after == width
                &&& (align is Left || align is Unaligned) ==> before == 0
                &&& align is Right ==> after == 0
                &&& align is Center ==> before <= after <= before + 1
            },
{
    if cells(content) < width {
        let p = (width - cells(content)) as nat;
        assert(spaces(0) =~= Seq::<char>::empty());
        let (before, after): (nat, nat) = match align {
            MdAlignment::Right => (p, 0),
            MdAlignment::Center => (p / 2, (p - p / 2) as nat),
            _ => (0, p),
        };
        assert(pad_cell_spec(content, width, align) =~= spaces(before) + content + spaces(after));
    }
}

/// Every cell of a collected table fits the width of its column.
pub proof fn law_md_cells_fit(header: Option<Seq<Seq<char>>>, rows: Seq<Seq<Seq<char>>>, r: int, i: int)
    requires
        0 <= r < rows.len(),
        0 <= i < rows[r].len(),
    ensures
        cells(rows[r][i]) <= md_col_width(header, rows, i),
    decreases rows.len(),
{
    if r < rows.len() - 1 {
        law_md_cells_fit(header, rows.drop_last(), r, i);
        assert(rows.drop_last()[r] == rows[r]);
    }
}

} // verus!
