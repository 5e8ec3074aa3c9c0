//! Panel - bordered box containing content.
//!
//! A Panel renders lines of content inside a border drawn with box
//! characters, with optional title and subtitle set into the top and bottom
//! edges.
use vstd::prelude::*;
use crate::box_chars::{BoxChars, ASCII, ROUNDED, SQUARE};
use crate::cells::{cell_len, cells, char_cells, set_cell_size, set_cell_size_spec};
use crate::renderables::padding::PaddingDimensions;
use crate::renderables::rule::newline_seg;
use crate::segment::{
    adjust_line_length, adjust_spec, apply_style, apply_style_model, char_seg, char_segment, char_vecs,
    copy_line, line_cells, lines_model, pad_seg, plain_model, push_seg, push_segs, segs_model,
    spaces_segment, split_newlines, split_parts, Segment, SegmentModel,
};
use crate::style::{Style, StyleModel};
use crate::text::{ellipsis, ellipsis_spec, JustifyMethod, Text, TextModel};
use crate::text_ops::{owned, push_str, repeat_char, repeat_spec, string_from_chars};

verus! {

/// A bordered panel containing content.
#[derive(Debug)]
pub struct Panel {
    /// Content lines to render inside the panel.
    pub content_lines: Vec<Vec<Segment>>,
    /// Box drawing style.
    box_style: BoxChars,
    /// Use ASCII-safe characters.
    safe_box: bool,
    /// Expand to fill available width.
    pub expand: bool,
    /// Style for the panel background.
    style: Style,
    /// Style for the border.
    border_style: Style,
    /// Fixed width (None = auto).
    width: Option<usize>,
    /// Fixed height (None = auto).
    height: Option<usize>,
    /// Padding inside the border.
    padding: PaddingDimensions,
    /// Optional title.
    title: Option<Text>,
    /// Title alignment.
    title_align: JustifyMethod,
    /// Optional subtitle (bottom).
    subtitle: Option<Text>,
    /// Subtitle alignment.
    subtitle_align: JustifyMethod,
}

/// The value of a panel.
pub struct PanelModel {
    pub content_lines: Seq<Seq<SegmentModel>>,
    pub box_style: BoxChars,
    pub safe_box: bool,
    pub expand: bool,
    pub style: StyleModel,
    pub border_style: StyleModel,
    pub width: Option<usize>,
    pub height: Option<usize>,
    pub padding: PaddingDimensions,
    pub title: Option<TextModel>,
    pub title_align: JustifyMethod,
    pub subtitle: Option<TextModel>,
    pub subtitle_align: JustifyMethod,
}

/// The value of an optional text.
pub open spec fn opt_text_model(t: Option<Text>) -> Option<TextModel> {
    match t { Some(t) => Some(t@), None => None }
}

impl View for Panel {
    type V = PanelModel;

    closed spec fn view(&self) -> PanelModel {
        PanelModel {
            content_lines: lines_model(self.content_lines@),
            box_style: self.box_style,
            safe_box: self.safe_box,
            expand: self.expand,
            style: self.style@,
            border_style: self.border_style@,
            width: self.width,
            height: self.height,
            padding: self.padding,
            title: opt_text_model(self.title),
            title_align: self.title_align,
            subtitle: opt_text_model(self.subtitle),
            subtitle_align: self.subtitle_align,
        }
    }
}

/// A new panel's settings for the given content and box style: expanding,
/// plain styles, one cell of horizontal padding, no title or subtitle,
/// centered labels.
pub open spec fn default_panel(lines: Seq<Seq<SegmentModel>>, box_style: BoxChars) -> PanelModel {
    PanelModel {
        content_lines: lines,
        box_style,
        safe_box: false,
        expand: true,
        style: crate::style::empty_style_model(false),
        border_style: crate::style::empty_style_model(false),
        width: None,
        height: None,
        padding: PaddingDimensions { top: 0, right: 1, bottom: 0, left: 1 },
        title: None,
        title_align: JustifyMethod::Center,
        subtitle: None,
        subtitle_align: JustifyMethod::Center,
    }
}

/// The lines of a text as `str::lines` gives them: split at newlines, a
/// final empty piece dropped, a carriage return at the end of each removed.
pub open spec fn text_lines(t: Seq<char>) -> Seq<Seq<char>> {
    let parts = split_parts(t);
    let kept = if parts.last().len() == 0 { parts.drop_last() } else { parts };
    kept.map_values(|p: Seq<char>| if p.len() > 0 && p.last() == '\r' { p.drop_last() } else { p })
}

/// Rounded box characters, as `ROUNDED` has them.
pub open spec fn rounded_box(b: BoxChars) -> bool {
    &&& !b.ascii
    &&& b.top == ['\u{256D}', '\u{2500}', '\u{252C}', '\u{256E}']
    &&& b.head == ['\u{2502}', ' ', '\u{2502}', '\u{2502}']
    &&& b.bottom == ['\u{2570}', '\u{2500}', '\u{2534}', '\u{256F}']
}

impl Panel {
    /// Create a new panel with content lines.
    pub fn new(content_lines: Vec<Vec<Segment>>) -> (p: Self)
        ensures
            p@ == default_panel(lines_model(content_lines@), p@.box_style),
            rounded_box(p@.box_style),
    {
        Panel {
            content_lines,
            box_style: ROUNDED(),
            safe_box: false,
            expand: true,
            style: Style::new(),
            border_style: Style::new(),
            width: None,
            height: None,
            padding: PaddingDimensions::symmetric(0, 1),
            title: None,
            title_align: JustifyMethod::Center,
            subtitle: None,
            subtitle_align: JustifyMethod::Center,
        }
    }

    /// Create a panel from plain text content: one unstyled segment per line.
    pub fn from_text(text: &str) -> (p: Self)
        ensures
            p@.content_lines.len() == text_lines(text@).len(),
            forall|i: int| 0 <= i < p@.content_lines.len() ==> #[trigger] p@.content_lines[i]
                == seq![plain_model(text_lines(text@)[i], None)],
            p@ == default_panel(p@.content_lines, p@.box_style),
            rounded_box(p@.box_style),
    {
        let parts = split_newlines(text);
        proof {
            crate::segment::lemma_split_parts_len(text@);
        }
        let ghost pv = char_vecs(parts@);
        let n = if parts[parts.len() - 1].len() == 0 { parts.len() - 1 } else { parts.len() };
        let ghost kept = if pv.last().len() == 0 { pv.drop_last() } else { pv };
        assert(kept.len() == n);
        let mut lines: Vec<Vec<Segment>> = Vec::new();
        let mut i: usize = 0;
        while i < n
            invariant
                i <= n,
                n <= parts@.len(),
                pv == char_vecs(parts@),
                pv == split_parts(text@),
                kept.len() == n,
                kept == (if pv.last().len() == 0 { pv.drop_last() } else { pv }),
                lines@.len() == i,
                forall|k: int| 0 <= k < i ==> #[trigger] lines_model(lines@)[k]
                    == seq![plain_model(text_lines(text@)[k], None)],
            decreases n - i,
        {
            let part = &parts[i];
            assert(pv[i as int] == part@);
            assert(kept[i as int] == pv[i as int]);
            let m = part.len();
            let end = if m > 0 && part[m - 1] == '\r' { m - 1 } else { m };
            let s = crate::text_ops::string_from_range(part, 0, end);
            proof {
                let pp = part@;
                let f = if pp.len() > 0 && pp.last() == '\r' { pp.drop_last() } else { pp };
                assert(text_lines(text@)[i as int] == f);
                assert(s@ =~= f);
            }
            let seg = Segment { text: s, style: None, control: None };
            let mut line: Vec<Segment> = Vec::new();
            line.push(seg);
            assert(segs_model(line@) =~= seq![plain_model(text_lines(text@)[i as int], None)]);
            let ghost prev = lines@;
            lines.push(line);
            assert(lines_model(lines@) =~= lines_model(prev).push(segs_model(line@)));
            i += 1;
        }
        Panel::new(lines)
    }

    /// Create a panel from a text of the given width: one line per line of
    /// the text (as `str::lines` splits it), each in the text's style.
    pub fn from_rich_text(text: &Text, width: usize) -> (p: Self)
        ensures
            p@.content_lines.len() == text_lines(text@.plain).len(),
            forall|i: int| 0 <= i < p@.content_lines.len() ==> #[trigger] p@.content_lines[i]
                == crate::text::text_segs(text_lines(text@.plain)[i], text@.style),
            p@ == (PanelModel { width: Some(width), ..default_panel(p@.content_lines, p@.box_style) }),
            rounded_box(p@.box_style),
    {
        let base = Panel::from_text(text.plain());
        let ghost tl = text_lines(text@.plain);
        let mut lines: Vec<Vec<Segment>> = Vec::new();
        let mut i: usize = 0;
        while i < base.content_lines.len()
            invariant
                i <= base.content_lines@.len(),
                base@.content_lines.len() == tl.len(),
                base@.content_lines.len() == base.content_lines@.len(),
                forall|k: int| 0 <= k < base@.content_lines.len() ==> #[trigger] base@.content_lines[k]
                    == seq![plain_model(tl[k], None)],
                tl == text_lines(text@.plain),
                lines@.len() == i,
                forall|k: int| 0 <= k < i ==> #[trigger] lines_model(lines@)[k]
                    == crate::text::text_segs(tl[k], text@.style),
            decreases base.content_lines.len() - i,
        {
            assert(base@.content_lines[i as int] == segs_model(base.content_lines@[i as int]@));
            assert(base@.content_lines[i as int] == seq![plain_model(tl[i as int], None)]);
            let line = &base.content_lines[i];
            assert(segs_model(line@)[0] == line@[0]@);
            let piece = Text::styled(line[0].text.as_str(), text.style().clone());
            let segs = piece.render();
            let ghost prev = lines@;
            lines.push(segs);
            assert(lines_model(lines@) =~= lines_model(prev).push(segs_model(segs@)));
            i += 1;
        }
        let mut p = Panel::new(lines);
        p.width = Some(width);
        p
    }

    /// Set the box style.
    pub fn box_style(self, style: BoxChars) -> (p: Self)
        ensures
            p@ == (PanelModel { box_style: style, ..self@ }),
    {
        Panel { box_style: style, ..self }
    }

    /// Use rounded box style.
    pub fn rounded(self) -> (p: Self)
        ensures
            p@ == (PanelModel { box_style: p@.box_style, ..self@ }),
            rounded_box(p@.box_style),
    {
        Panel { box_style: ROUNDED(), ..self }
    }

    /// Use square box style.
    pub fn square(self) -> (p: Self)
        ensures
            p@ == (PanelModel { box_style: p@.box_style, ..self@ }),
            !p@.box_style.ascii,
            p@.box_style.top == ['\u{250C}', '\u{2500}', '\u{252C}', '\u{2510}'],
    {
        Panel { box_style: SQUARE(), ..self }
    }

    /// Use ASCII-safe box style.
    pub fn ascii(self) -> (p: Self)
        ensures
            p@ == (PanelModel { box_style: crate::box_chars::ascii_box_spec(), safe_box: true, ..self@ }),
    {
        Panel { box_style: ASCII(), safe_box: true, ..self }
    }

    /// Force ASCII-safe rendering.
    pub fn safe_box(self, safe: bool) -> (p: Self)
        ensures
            p@ == (PanelModel { safe_box: safe, ..self@ }),
    {
        Panel { safe_box: safe, ..self }
    }

    /// Set whether to expand to fill width.
    pub fn expand(self, expand: bool) -> (p: Self)
        ensures
            p@ == (PanelModel { expand, ..self@ }),
    {
        Panel { expand, ..self }
    }

    /// Set the background style.
    pub fn style(self, style: Style) -> (p: Self)
        ensures
            p@ == (PanelModel { style: style@, ..self@ }),
    {
        Panel { style, ..self }
    }

    /// Set the border style.
    pub fn border_style(self, style: Style) -> (p: Self)
        ensures
            p@ == (PanelModel { border_style: style@, ..self@ }),
    {
        Panel { border_style: style, ..self }
    }

    /// Set fixed width.
    pub fn width(self, width: usize) -> (p: Self)
        ensures
            p@ == (PanelModel { width: Some(width), ..self@ }),
    {
        Panel { width: Some(width), ..self }
    }

    /// Set fixed height.
    pub fn height(self, height: usize) -> (p: Self)
        ensures
            p@ == (PanelModel { height: Some(height), ..self@ }),
    {
        Panel { height: Some(height), ..self }
    }

    /// Set padding.
    pub fn padding(self, padding: PaddingDimensions) -> (p: Self)
        ensures
            p@ == (PanelModel { padding, ..self@ }),
    {
        Panel { padding, ..self }
    }

    /// Set the title.
    pub fn title(self, title: &str) -> (p: Self)
        ensures
            p@ == (PanelModel {
                title: Some(TextModel { plain: title@, style: crate::style::empty_style_model(true) }),
                ..self@
            }),
    {
        Panel { title: Some(Text::new(title)), ..self }
    }

    /// Set title alignment.
    pub fn title_align(self, align: JustifyMethod) -> (p: Self)
        ensures
            p@ == (PanelModel { title_align: align, ..self@ }),
    {
        Panel { title_align: align, ..self }
    }

    /// Set the subtitle.
    pub fn subtitle(self, subtitle: &str) -> (p: Self)
        ensures
            p@ == (PanelModel {
                subtitle: Some(TextModel { plain: subtitle@, style: crate::style::empty_style_model(true) }),
                ..self@
            }),
    {
        Panel { subtitle: Some(Text::new(subtitle)), ..self }
    }

    /// Set subtitle alignment.
    pub fn subtitle_align(self, align: JustifyMethod) -> (p: Self)
        ensures
            p@ == (PanelModel { subtitle_align: align, ..self@ }),
    {
        Panel { subtitle_align: align, ..self }
    }
}

/// Create a panel with content that fits (doesn't expand).
pub fn fit_panel(text: &str) -> (p: Panel)
    ensures
        !p@.expand,
        p@.content_lines.len() == text_lines(text@).len(),
        forall|i: int| 0 <= i < p@.content_lines.len() ==> #[trigger] p@.content_lines[i]
            == seq![plain_model(text_lines(text@)[i], None)],
        p@ == (PanelModel { expand: false, ..default_panel(p@.content_lines, p@.box_style) }),
        rounded_box(p@.box_style),
{
    Panel::from_text(text).expand(false)
}

/// `a - b`, or 0 where `b` is larger.
pub open spec fn sat_sub(a: int, b: int) -> nat {
    if a > b { (a - b) as nat } else { 0 }
}

/// The smaller of two numbers.
pub open spec fn min_nat(a: nat, b: nat) -> nat {
    if a < b { a } else { b }
}

/// The larger of two numbers.
pub open spec fn max_nat(a: nat, b: nat) -> nat {
    if a > b { a } else { b }
}

/// The cell widths of the texts of a line's segments, control segments
/// included.
pub open spec fn text_cells(l: Seq<SegmentModel>) -> nat
    decreases l.len(),
{
    if l.len() == 0 { 0 } else { text_cells(l.drop_last()) + cells(l.last().text) }
}

/// The widest line of content.
pub open spec fn content_width_spec(lines: Seq<Seq<SegmentModel>>) -> nat
    decreases lines.len(),
{
    if lines.len() == 0 { 0 } else { max_nat(content_width_spec(lines.drop_last()), text_cells(lines.last())) }
}

/// The box characters in use: ASCII when ASCII-safe rendering is forced on a
/// box that is not ASCII already.
pub open spec fn eff_box(p: PanelModel) -> BoxChars {
    if p.safe_box && !p.box_style.ascii { crate::box_chars::ascii_box_spec() } else { p.box_style }
}

/// The horizontal padding.
pub open spec fn hpad(p: PanelModel) -> nat {
    (p.padding.left + p.padding.right) as nat
}

/// The panel's width within `max_width`: the fixed width or, for an expanding
/// panel, all of `max_width`; a fitted panel is as wide as its widest line with
/// borders and padding.
pub open spec fn panel_width(p: PanelModel, max_width: nat) -> nat {
    let natural = if p.expand { max_width } else { content_width_spec(p.content_lines) + 2 + hpad(p) };
    let w = match p.width { Some(w) => w as nat, None => natural };
    min_nat(w, max_width)
}

/// Padding above and below and the content lines, fitted to a fixed height:
/// content that does not fit is cut and padding dropped; otherwise padding
/// shrinks (top first) to leave room for the content, and blank lines fill the
/// rest.
pub open spec fn height_fit(p: PanelModel) -> (nat, nat, Seq<Seq<SegmentModel>>) {
    let lines = p.content_lines;
    let top = p.padding.top as nat;
    let bottom = p.padding.bottom as nat;
    match p.height {
        None => (top, bottom, lines),
        Some(h) => {
            let max_inner = sat_sub(h as int, 2);
            if lines.len() > max_inner {
                (0, 0, lines.take(max_inner as int))
            } else {
                let rem = (max_inner - lines.len()) as nat;
                let t = if top + bottom > rem { min_nat(top, rem) } else { top };
                let b = if top + bottom > rem { min_nat(bottom, sat_sub(rem as int, t as int)) } else { bottom };
                let max_content = sat_sub(max_inner as int, (t + b) as int);
                let filled = if lines.len() < max_content {
                    lines + Seq::new((max_content - lines.len()) as nat, |_i: int| Seq::<SegmentModel>::empty())
                } else {
                    lines
                };
                (t, b, filled)
            }
        },
    }
}


/// A run of `n` copies of a character.
pub open spec fn rep_seg(c: char, n: nat, s: StyleModel) -> SegmentModel {
    plain_model(repeat_spec(c, n), Some(s))
}

/// A padding row: the side borders around blank space.
pub open spec fn pad_row(p: PanelModel, bc: BoxChars, inner: nat) -> Seq<SegmentModel> {
    seq![
        char_seg(bc.head[0], p.border_style),
        pad_seg(inner, Some(p.style)),
        char_seg(bc.head[3], p.border_style),
        newline_seg(),
    ]
}

/// A line with the panel style combined under each text segment's style.
pub open spec fn styled_line(l: Seq<SegmentModel>, s: StyleModel) -> Seq<SegmentModel> {
    l.map_values(|m: SegmentModel| apply_style_model(m, Some(s), None))
}

/// The left or right padding of a content row, where there is any.
pub open spec fn side_pad(n: usize, s: StyleModel) -> Seq<SegmentModel> {
    if n > 0 { seq![pad_seg(n as nat, Some(s))] } else { Seq::empty() }
}

/// A content row: the side borders and padding around the styled line,
/// padded or cut to the content width.
pub open spec fn content_row(p: PanelModel, bc: BoxChars, line: Seq<SegmentModel>, cw: nat) -> Seq<SegmentModel> {
    seq![char_seg(bc.head[0], p.border_style)]
        + side_pad(p.padding.left, p.style)
        + adjust_spec(styled_line(line, p.style), cw, Some(p.style), true)
        + side_pad(p.padding.right, p.style)
        + seq![char_seg(bc.head[3], p.border_style), newline_seg()]
}


/// A title or subtitle fitted into an edge `inner` cells wide, leaving room
/// for a space and a border character on each side where there is room.
pub open spec fn label_fit(t: Seq<char>, inner: nat) -> Seq<char> {
    let max_text = if inner >= 4 { (inner - 4) as nat } else { sat_sub(inner as int, 2) };
    if inner >= 2 {
        if cells(t) > max_text { ellipsis_spec(t, max_text) } else { t }
    } else {
        ellipsis_spec(t, inner)
    }
}

/// How many edge characters go left and right of a label.
pub open spec fn side_split(align: JustifyMethod, available: nat) -> (nat, nat) {
    if available == 0 {
        (0, 0)
    } else {
        match align {
            JustifyMethod::Left | JustifyMethod::Default => (1, (available - 1) as nat),
            JustifyMethod::Right => ((available - 1) as nat, 1),
            _ => (available / 2, (available - available / 2) as nat),
        }
    }
}

/// A run of edge characters, where there are any.
pub open spec fn edge_run(c: char, n: nat, s: StyleModel) -> Seq<SegmentModel> {
    if n > 0 { seq![rep_seg(c, n, s)] } else { Seq::empty() }
}

/// The top or bottom edge: corners around a line of edge characters, with the
/// label (spaced) set in it at the given alignment.
pub open spec fn edge_spec(
    corners: [char; 4],
    label: Option<TextModel>,
    align: JustifyMethod,
    inner: nat,
    bs: StyleModel,
) -> Seq<SegmentModel> {
    seq![char_seg(corners[0], bs)] + match label {
        None => seq![rep_seg(corners[1], inner, bs)],
        Some(t) => {
            let tt = label_fit(t.plain, inner);
            let tw = cells(tt);
            if inner < 2 {
                seq![plain_model(tt, Some(t.style))] + edge_run(corners[1], sat_sub(inner as int, tw as int), bs)
            } else {
                let (l, r) = side_split(align, sat_sub(inner as int, (tw + 2) as int));
                edge_run(corners[1], l, bs) + seq![
                    plain_model(seq![' '], Some(t.style)),
                    plain_model(tt, Some(t.style)),
                    plain_model(seq![' '], Some(t.style)),
                ] + edge_run(corners[1], r, bs)
            }
        },
    } + seq![char_seg(corners[3], bs)]
}

/// Rows joined one after another.
pub open spec fn flatten(rows: Seq<Seq<SegmentModel>>) -> Seq<SegmentModel>
    decreases rows.len(),
{
    if rows.len() == 0 { Seq::empty() } else { flatten(rows.drop_last()) + rows.last() }
}

/// The segments of a panel rendered within `max_width` cells: the top edge,
/// padding rows, one row per (fitted) content line, padding rows and the
/// bottom edge, each ending in a newline.
pub open spec fn panel_spec(p: PanelModel, max_width: nat) -> Seq<SegmentModel> {
    let bc = eff_box(p);
    let inner = sat_sub(panel_width(p, max_width) as int, 2);
    let cw = sat_sub(inner as int, hpad(p) as int);
    let (pt, pb, lines) = height_fit(p);
    edge_spec(bc.top, p.title, p.title_align, inner, p.border_style).push(newline_seg())
        + flatten(Seq::new(pt, |_i: int| pad_row(p, bc, inner)))
        + flatten(Seq::new(lines.len(), |i: int| content_row(p, bc, lines[i], cw)))
        + flatten(Seq::new(pb, |_i: int| pad_row(p, bc, inner)))
        + edge_spec(bc.bottom, p.subtitle, p.subtitle_align, inner, p.border_style).push(newline_seg())
}

/// The panels a machine can render: content, labels and padding have widths
/// it can count.
pub open spec fn panel_ok(p: PanelModel) -> bool {
    &&& content_width_spec(p.content_lines) + 2 + hpad(p) <= usize::MAX
    &&& (p.height is Some ==> p.padding.top + p.padding.bottom <= usize::MAX)
    &&& (p.title matches Some(t) ==> cells(t.plain) <= usize::MAX)
    &&& (p.subtitle matches Some(t) ==> cells(t.plain) <= usize::MAX)
}

/// A run of `n` copies of a character.
fn rep_segment(c: char, n: usize, style: &Style) -> (s: Segment)
    ensures
        s@ == rep_seg(c, n as nat, style@),
{
    Segment { text: repeat_char(c, n), style: Some(style.clone()), control: None }
}

/// A label fitted into an edge `inner` cells wide.
fn label_text(t: &str, inner: usize) -> (r: String)
    requires
        cells(t@) <= usize::MAX,
    ensures
        r@ == label_fit(t@, inner as nat),
{
    let max_text = if inner >= 4 { inner - 4 } else if inner > 2 { inner - 2 } else { 0 };
    if inner >= 2 {
        if cell_len(t) > max_text { ellipsis(t, max_text) } else { owned(t) }
    } else {
        ellipsis(t, inner)
    }
}

/// Appends a run of edge characters, where there are any.
fn push_edge_run(v: &mut Vec<Segment>, c: char, n: usize, bs: &Style)
    ensures
        segs_model(final(v)@) == segs_model(old(v)@) + edge_run(c, n as nat, bs@),
{
    if n > 0 {
        push_seg(v, rep_segment(c, n, bs));
    } else {
        assert(segs_model(v@) =~= segs_model(v@) + edge_run(c, n as nat, bs@));
    }
}

/// The top or bottom edge (see `edge_spec`).
fn edge(corners: [char; 4], label: &Option<Text>, align: JustifyMethod, inner: usize, bs: &Style) -> (v: Vec<Segment>)
    requires
        opt_text_model(*label) matches Some(t) ==> cells(t.plain) <= usize::MAX,
    ensures
        segs_model(v@) == edge_spec(corners, opt_text_model(*label), align, inner as nat, bs@),
{
    let mut v: Vec<Segment> = Vec::new();
    push_seg(&mut v, char_segment(corners[0], bs));
    let ghost start = segs_model(v@);
    assert(start == seq![char_seg(corners[0], bs@)]);
    match label {
        None => {
            push_seg(&mut v, rep_segment(corners[1], inner, bs));
        },
        Some(t) => {
            let tt = label_text(t.plain(), inner);
            let tw = crate::cells::cell_len_saturating(tt.as_str());
            let ts = t.style();
            if inner < 2 {
                push_seg(&mut v, Segment::new(tt.as_str(), Some(ts.clone())));
                let rest = if inner > tw { inner - tw } else { 0 };
                push_edge_run(&mut v, corners[1], rest, bs);
            } else {
                let total = if tw <= usize::MAX - 2 { tw + 2 } else { usize::MAX };
                let available = if inner > total { inner - total } else { 0 };
                let (l, r) = if available == 0 {
                    (0, 0)
                } else {
                    match align {
                        JustifyMethod::Left | JustifyMethod::Default => (1, available - 1),
                        JustifyMethod::Right => (available - 1, 1),
                        _ => (available / 2, available - available / 2),
                    }
                };
                push_edge_run(&mut v, corners[1], l, bs);
                push_seg(&mut v, Segment::new(" ", Some(ts.clone())));
                push_seg(&mut v, Segment::new(tt.as_str(), Some(ts.clone())));
                push_seg(&mut v, Segment::new(" ", Some(ts.clone())));
                push_edge_run(&mut v, corners[1], r, bs);
                proof {
                    reveal_strlit(" ");
                    assert(" "@ =~= seq![' ']);
                }
            }
        },
    }
    push_seg(&mut v, char_segment(corners[3], bs));
    assert(segs_model(v@) =~= edge_spec(corners, opt_text_model(*label), align, inner as nat, bs@));
    v
}

/// Restyling a line keeps its width.
proof fn lemma_styled_cells(l: Seq<SegmentModel>, s: StyleModel)
    ensures
        line_cells(styled_line(l, s)) == line_cells(l),
    decreases l.len(),
{
    if l.len() > 0 {
        assert(styled_line(l, s).drop_last() =~= styled_line(l.drop_last(), s));
        lemma_styled_cells(l.drop_last(), s);
    }
}

/// A line's width counts no more than the widths of all its texts.
proof fn lemma_line_le_text(l: Seq<SegmentModel>)
    ensures
        line_cells(l) <= text_cells(l),
    decreases l.len(),
{
    if l.len() > 0 {
        lemma_line_le_text(l.drop_last());
    }
}

/// Each line is at most as wide as the widest.
proof fn lemma_within_content_width(lines: Seq<Seq<SegmentModel>>, i: int)
    requires
        0 <= i < lines.len(),
    ensures
        text_cells(lines[i]) <= content_width_spec(lines),
    decreases lines.len(),
{
    if i < lines.len() - 1 {
        lemma_within_content_width(lines.drop_last(), i);
    }
}

/// Flattening one more row appends it.
proof fn lemma_flatten_push(rows: Seq<Seq<SegmentModel>>, k: int)
    requires
        0 <= k < rows.len(),
    ensures
        flatten(rows.take(k + 1)) == flatten(rows.take(k)) + rows[k],
{
    assert(rows.take(k + 1).drop_last() =~= rows.take(k));
}

impl Panel {
    /// The widest content line (counting the texts of all segments).
    fn content_width(&self) -> (w: usize)
        requires
            content_width_spec(self@.content_lines) <= usize::MAX,
        ensures
            w == content_width_spec(self@.content_lines),
    {
        let ghost lines = self@.content_lines;
        let mut best: usize = 0;
        let mut i: usize = 0;
        while i < self.content_lines.len()
            invariant
                i <= self.content_lines@.len(),
                lines == self@.content_lines,
                lines.len() == self.content_lines@.len(),
                content_width_spec(lines) <= usize::MAX,
                best == content_width_spec(lines.take(i as int)),
            decreases self.content_lines.len() - i,
        {
            proof {
                assert(lines.take(i + 1).drop_last() =~= lines.take(i as int));
                lemma_within_content_width(lines, i as int);
                assert(lines[i as int] == segs_model(self.content_lines@[i as int]@));
            }
            let line = &self.content_lines[i];
            let ghost lm = segs_model(line@);
            let mut sum: usize = 0;
            let mut j: usize = 0;
            while j < line.len()
                invariant
                    j <= line@.len(),
                    lm == segs_model(line@),
                    text_cells(lm) <= usize::MAX,
                    sum == text_cells(lm.take(j as int)),
                decreases line.len() - j,
            {
                proof {
                    assert(lm.take(j + 1).drop_last() =~= lm.take(j as int));
                    lemma_text_cells_prefix(lm, j + 1);
                    assert(lm[j as int] == line@[j as int]@);
                }
                let w = cell_len(line[j].text.as_str());
                sum = sum + w;
                j += 1;
            }
            assert(lm.take(lm.len() as int) =~= lm);
            if sum > best {
                best = sum;
            }
            i += 1;
        }
        assert(lines.take(lines.len() as int) =~= lines);
        best
    }

    /// A padding row.
    fn pad_row(&self, bc: &BoxChars, inner: usize) -> (v: Vec<Segment>)
        ensures
            segs_model(v@) == pad_row(self@, *bc, inner as nat),
    {
        let mut v: Vec<Segment> = Vec::new();
        push_seg(&mut v, char_segment(bc.head[0], &self.border_style));
        push_seg(&mut v, spaces_segment(inner, Some(self.style.clone())));
        push_seg(&mut v, char_segment(bc.head[3], &self.border_style));
        push_seg(&mut v, Segment::line());
        assert(segs_model(v@) =~= pad_row(self@, *bc, inner as nat));
        v
    }

    /// A content row.
    fn content_row(&self, bc: &BoxChars, line: &Vec<Segment>, cw: usize) -> (v: Vec<Segment>)
        requires
            line_cells(segs_model(line@)) <= usize::MAX,
        ensures
            segs_model(v@) == content_row(self@, *bc, segs_model(line@), cw as nat),
    {
        let mut v: Vec<Segment> = Vec::new();
        push_seg(&mut v, char_segment(bc.head[0], &self.border_style));
        if self.padding.left > 0 {
            push_seg(&mut v, spaces_segment(self.padding.left, Some(self.style.clone())));
        }
        let copy = copy_line(line);
        let styled = apply_style(copy, Some(&self.style), None);
        assert(segs_model(styled@) =~= styled_line(segs_model(line@), self@.style));
        proof {
            lemma_styled_cells(segs_model(line@), self@.style);
        }
        let adjusted = adjust_line_length(styled, cw, Some(self.style.clone()), true);
        push_segs(&mut v, adjusted);
        if self.padding.right > 0 {
            push_seg(&mut v, spaces_segment(self.padding.right, Some(self.style.clone())));
        }
        push_seg(&mut v, char_segment(bc.head[3], &self.border_style));
        push_seg(&mut v, Segment::line());
        assert(segs_model(v@) =~= content_row(self@, *bc, segs_model(line@), cw as nat));
        v
    }
}

/// The widths of a prefix's texts never exceed those of the whole line.
proof fn lemma_text_cells_prefix(l: Seq<SegmentModel>, i: int)
    requires
        0 <= i <= l.len(),
    ensures
        text_cells(l.take(i)) <= text_cells(l),
    decreases l.len() - i,
{
    if i < l.len() {
        lemma_text_cells_prefix(l, i + 1);
        assert(l.take(i + 1).drop_last() =~= l.take(i));
    } else {
        assert(l.take(i) =~= l);
    }
}

/// Every fitted line is at most as wide as the widest content line.
proof fn lemma_fitted_lines(p: PanelModel, i: int)
    requires
        0 <= i < height_fit(p).2.len(),
    ensures
        line_cells(height_fit(p).2[i]) <= content_width_spec(p.content_lines),
{
    let lines = p.content_lines;
    let fitted = height_fit(p).2;
    if i < lines.len() {
        assert(fitted[i] == lines[i]);
        lemma_within_content_width(lines, i);
        lemma_line_le_text(lines[i]);
    } else {
        assert(fitted[i] == Seq::<SegmentModel>::empty());
    }
}

impl Panel {
    /// The padding and content lines fitted to a fixed height (see `height_fit`).
    fn fit_height(&self) -> (r: (usize, usize, Vec<Vec<Segment>>))
        requires
            self@.height is Some ==> self@.padding.top + self@.padding.bottom <= usize::MAX,
        ensures
            r.0 == height_fit(self@).0,
            r.1 == height_fit(self@).1,
            lines_model(r.2@) == height_fit(self@).2,
    {
        let ghost p = self@;
        let mut pad_top = self.padding.top;
        let mut pad_bottom = self.padding.bottom;
        let n = self.content_lines.len();
        let mut keep = n;
        let mut extra: usize = 0;
        if let Some(height) = self.height {
            let max_inner = if height > 2 { height - 2 } else { 0 };
            if n > max_inner {
                keep = max_inner;
                pad_top = 0;
                pad_bottom = 0;
            } else {
                let rem = max_inner - n;
                if pad_top + pad_bottom > rem {
                    let t = if pad_top < rem { pad_top } else { rem };
                    let rest = rem - t;
                    let b = if pad_bottom < rest { pad_bottom } else { rest };
                    pad_top = t;
                    pad_bottom = b;
                }
                let max_content = if max_inner > pad_top + pad_bottom { max_inner - (pad_top + pad_bottom) } else { 0 };
                if n < max_content {
                    extra = max_content - n;
                }
            }
        }
        let ghost fitted = height_fit(p).2;
        let mut lines: Vec<Vec<Segment>> = Vec::new();
        let mut i: usize = 0;
        while i < keep
            invariant
                i <= keep,
                keep <= n,
                n == self.content_lines@.len(),
                p == self@,
                fitted == height_fit(p).2,
                fitted.len() == keep + extra,
                forall|k: int| 0 <= k < keep ==> fitted[k] == p.content_lines[k],
                forall|k: int| keep <= k < keep + extra ==> fitted[k] == Seq::<SegmentModel>::empty(),
                lines@.len() == i,
                forall|k: int| 0 <= k < i ==> #[trigger] lines_model(lines@)[k] == fitted[k],
            decreases keep - i,
        {
            let c = copy_line(&self.content_lines[i]);
            assert(p.content_lines[i as int] == segs_model(self.content_lines@[i as int]@));
            let ghost prev = lines@;
            lines.push(c);
            assert(lines_model(lines@) =~= lines_model(prev).push(segs_model(c@)));
            i += 1;
        }
        let mut j: usize = 0;
        while j < extra
            invariant
                j <= extra,
                fitted.len() == keep + extra,
                forall|k: int| keep <= k < keep + extra ==> fitted[k] == Seq::<SegmentModel>::empty(),
                lines@.len() == keep + j,
                forall|k: int| 0 <= k < keep + j ==> #[trigger] lines_model(lines@)[k] == fitted[k],
            decreases extra - j,
        {
            let e: Vec<Segment> = Vec::new();
            let ghost prev = lines@;
            lines.push(e);
            assert(segs_model(e@) =~= Seq::<SegmentModel>::empty());
            assert(lines_model(lines@) =~= lines_model(prev).push(segs_model(e@)));
            j += 1;
        }
        assert(lines_model(lines@) =~= fitted);
        (pad_top, pad_bottom, lines)
    }

    /// Render the panel to segments within `max_width` cells (see `panel_spec`).
    pub fn render(&self, max_width: usize) -> (v: Vec<Segment>)
        requires
            panel_ok(self@),
        ensures
            segs_model(v@) == panel_spec(self@, max_width as nat),
    {
        let ghost p = self@;
        let bc = if self.safe_box && !self.box_style.ascii { ASCII() } else { self.box_style };
        let h = self.padding.left + self.padding.right;
        let pw = if self.expand {
            match self.width { Some(w) => if w < max_width { w } else { max_width }, None => max_width }
        } else {
            let cw = self.content_width();
            let min_width = cw + 2 + h;
            match self.width {
                Some(w) => if w < max_width { w } else { max_width },
                None => if min_width < max_width { min_width } else { max_width },
            }
        };
        assert(pw == panel_width(p, max_width as nat));
        let inner = if pw > 2 { pw - 2 } else { 0 };
        let content_w = if inner > h { inner - h } else { 0 };
        let (pad_top, pad_bottom, lines) = self.fit_height();
        let ghost fitted = height_fit(p).2;
        let ghost top_rows = Seq::new(pad_top as nat, |_i: int| pad_row(p, bc, inner as nat));
        let ghost mid_rows = Seq::new(fitted.len(), |i: int| content_row(p, bc, fitted[i], content_w as nat));
        let ghost bottom_rows = Seq::new(pad_bottom as nat, |_i: int| pad_row(p, bc, inner as nat));
        let mut segments = edge(bc.top, &self.title, self.title_align, inner, &self.border_style);
        push_seg(&mut segments, Segment::line());
        let ghost head = segs_model(segments@);
        let mut k: usize = 0;
        while k < pad_top
            invariant
                k <= pad_top,
                p == self@,
                top_rows == Seq::new(pad_top as nat, |_i: int| pad_row(p, bc, inner as nat)),
                segs_model(segments@) == head + flatten(top_rows.take(k as int)),
            decreases pad_top - k,
        {
            proof {
                lemma_flatten_push(top_rows, k as int);
            }
            let row = self.pad_row(&bc, inner);
            push_segs(&mut segments, row);
            k += 1;
        }
        assert(top_rows.take(pad_top as int) =~= top_rows);
        let ghost after_top = segs_model(segments@);
        let mut i: usize = 0;
        while i < lines.len()
            invariant
                i <= lines@.len(),
                p == self@,
                panel_ok(p),
                lines_model(lines@) == fitted,
                fitted == height_fit(p).2,
                mid_rows == Seq::new(fitted.len(), |i: int| content_row(p, bc, fitted[i], content_w as nat)),
                segs_model(segments@) == after_top + flatten(mid_rows.take(i as int)),
            decreases lines.len() - i,
        {
            proof {
                lemma_flatten_push(mid_rows, i as int);
                lemma_fitted_lines(p, i as int);
                assert(fitted[i as int] == segs_model(lines@[i as int]@));
            }
            let row = self.content_row(&bc, &lines[i], content_w);
            push_segs(&mut segments, row);
            i += 1;
        }
        assert(mid_rows.take(fitted.len() as int) =~= mid_rows);
        let ghost after_mid = segs_model(segments@);
        let mut k: usize = 0;
        while k < pad_bottom
            invariant
                k <= pad_bottom,
                p == self@,
                bottom_rows == Seq::new(pad_bottom as nat, |_i: int| pad_row(p, bc, inner as nat)),
                segs_model(segments@) == after_mid + flatten(bottom_rows.take(k as int)),
            decreases pad_bottom - k,
        {
            proof {
                lemma_flatten_push(bottom_rows, k as int);
            }
            let row = self.pad_row(&bc, inner);
            push_segs(&mut segments, row);
            k += 1;
        }
        assert(bottom_rows.take(pad_bottom as int) =~= bottom_rows);
        let bottom = edge(bc.bottom, &self.subtitle, self.subtitle_align, inner, &self.border_style);
        push_segs(&mut segments, bottom);
        push_seg(&mut segments, Segment::line());
        assert(segs_model(segments@) =~= panel_spec(p, max_width as nat));
        segments
    }

    /// Render to plain text: the texts of the rendered segments.
    pub fn render_plain(&self, max_width: usize) -> (s: String)
        requires
            panel_ok(self@),
        ensures
            s@ == crate::renderables::rule::texts(panel_spec(self@, max_width as nat)),
    {
        let segs = self.render(max_width);
        let ghost m = segs_model(segs@);
        let mut s = String::new();
        let mut i: usize = 0;
        while i < segs.len()
            invariant
                i <= segs@.len(),
                m == segs_model(segs@),
                s@ == crate::renderables::rule::texts(m.take(i as int)),
            decreases segs.len() - i,
        {
            proof {
                assert(m.take(i + 1).drop_last() =~= m.take(i as int));
                assert(m[i as int] == segs@[i as int]@);
            }
            push_str(&mut s, segs[i].text.as_str());
            i += 1;
        }
        assert(m.take(m.len() as int) =~= m);
        s
    }
}

/// Truncate a text to a maximum cell width with an ellipsis (see
/// `ellipsis_spec`), keeping its style.
pub fn truncate_text_to_width(text: &Text, max_width: usize) -> (t: Text)
    requires
        cells(text@.plain) <= usize::MAX,
    ensures
        t@ == (TextModel { plain: ellipsis_spec(text@.plain, max_width as nat), style: text@.style }),
{
    let s = ellipsis(text.plain(), max_width);
    Text::styled(s.as_str(), text.style().clone())
}

/// The width of two lines put one after the other.
pub(crate) proof fn lemma_line_cells_concat(a: Seq<SegmentModel>, b: Seq<SegmentModel>)
    ensures
        line_cells(a + b) == line_cells(a) + line_cells(b),
    decreases b.len(),
{
    if b.len() == 0 {
        assert(a + b =~= a);
    } else {
        assert((a + b).drop_last() =~= a + b.drop_last());
        lemma_line_cells_concat(a, b.drop_last());
    }
}

/// The width of a one-character segment.
pub(crate) proof fn lemma_char_seg_cells(c: char, st: StyleModel)
    ensures
        line_cells(seq![char_seg(c, st)]) == char_cells(c),
{
    crate::cells::lemma_cells_single(c);
    lemma_line_cells_one(char_seg(c, st));
}

/// The width of a line of one segment.
pub(crate) proof fn lemma_line_cells_one(m: SegmentModel)
    ensures
        line_cells(seq![m]) == crate::segment::seg_cells(m),
{
    crate::segment::lemma_line_cells_push(Seq::empty(), m);
    assert(seq![m] =~= Seq::<SegmentModel>::empty().push(m));
    assert(line_cells(Seq::<SegmentModel>::empty()) == 0);
}

/// The width of a side padding.
proof fn lemma_side_pad_cells(n: usize, st: StyleModel)
    requires
        char_cells(' ') == 1,
    ensures
        line_cells(side_pad(n, st)) == n,
{
    if n > 0 {
        crate::cells::lemma_cells_repeat(' ', n as nat);
        lemma_line_cells_one(pad_seg(n as nat, Some(st)));
    }
}

/// A panel with a fixed height has exactly that many rows: the two edges,
/// the padding rows and the content rows. Content that does not fit is cut to
/// its first lines, and padding goes before content does: where the content
/// fills the inner height, no padding row is left.
pub proof fn law_panel_height(p: PanelModel)
    requires
        p.height matches Some(h) && h >= 2,
    ensures
        height_fit(p).0 + height_fit(p).1 + height_fit(p).2.len() + 2 == p.height->0,
        forall|i: int|
            0 <= i < min_nat(p.content_lines.len(), (p.height->0 - 2) as nat) ==> #[trigger] height_fit(p).2[i]
                == p.content_lines[i],
        p.content_lines.len() >= p.height->0 - 2 ==> height_fit(p).0 == 0 && height_fit(p).1 == 0,
{
}

/// Every padding row of a panel, without its line break, is as wide as the
/// panel; so is every content row whose line fits in the content width, and no
/// content row is wider (box characters and spaces being one cell wide, and the
/// panel wide enough for its borders and padding).
pub proof fn law_panel_row_widths(p: PanelModel, max_width: nat, line: Seq<SegmentModel>)
    requires
        char_cells(' ') == 1,
        char_cells(eff_box(p).head[0]) == 1,
        char_cells(eff_box(p).head[3]) == 1,
        panel_width(p, max_width) >= 2 + hpad(p),
    ensures
        line_cells(pad_row(p, eff_box(p), sat_sub(panel_width(p, max_width) as int, 2)).drop_last())
            == panel_width(p, max_width),
        line_cells(content_row(p, eff_box(p), line, sat_sub(sat_sub(panel_width(p, max_width) as int, 2) as int, hpad(p) as int)).drop_last())
            <= panel_width(p, max_width),
        line_cells(line) <= sat_sub(sat_sub(panel_width(p, max_width) as int, 2) as int, hpad(p) as int) ==> line_cells(
            content_row(p, eff_box(p), line, sat_sub(sat_sub(panel_width(p, max_width) as int, 2) as int, hpad(p) as int)).drop_last(),
        ) == panel_width(p, max_width),
{
    let bc = eff_box(p);
    let w = panel_width(p, max_width);
    let inner = sat_sub(w as int, 2);
    let cw = sat_sub(inner as int, hpad(p) as int);
    let c0 = seq![char_seg(bc.head[0], p.border_style)];
    let c3 = seq![char_seg(bc.head[3], p.border_style)];
    lemma_char_seg_cells(bc.head[0], p.border_style);
    lemma_char_seg_cells(bc.head[3], p.border_style);
    let pad = seq![pad_seg(inner, Some(p.style))];
    crate::cells::lemma_cells_repeat(' ', inner);
    lemma_line_cells_one(pad_seg(inner, Some(p.style)));
    assert(pad_row(p, bc, inner).drop_last() =~= c0 + pad + c3);
    lemma_line_cells_concat(c0, pad);
    lemma_line_cells_concat(c0 + pad, c3);
    let sl = side_pad(p.padding.left, p.style);
    let sr = side_pad(p.padding.right, p.style);
    let adj = adjust_spec(styled_line(line, p.style), cw, Some(p.style), true);
    lemma_side_pad_cells(p.padding.left, p.style);
    lemma_side_pad_cells(p.padding.right, p.style);
    lemma_styled_cells(line, p.style);
    crate::segment::law_adjust_line_length_width(styled_line(line, p.style), cw, Some(p.style), true);
    assert(content_row(p, bc, line, cw).drop_last() =~= c0 + sl + adj + sr + c3);
    lemma_line_cells_concat(c0, sl);
    lemma_line_cells_concat(c0 + sl, adj);
    lemma_line_cells_concat(c0 + sl + adj, sr);
    lemma_line_cells_concat(c0 + sl + adj + sr, c3);
}

/// How the edge characters beside a label are placed: all the room is used;
/// a left (or default) label has one edge character before it, a right one
/// one after it, and a centered (or fully justified) one is set in the middle,
/// the odd character after.
pub open spec fn label_placed(align: JustifyMethod, before: nat, after: nat, available: nat) -> bool {
    &&& before + after == available
    &&& available > 0 && (align is Left || align is Default) ==> before == 1
    &&& available > 0 && align is Right ==> after == 1
    &&& (align is Center || align is Full) ==> before <= after <= before + 1
}

/// A label on an edge with room for it and its spaces sits between two runs
/// of edge characters that fill the rest of the edge, placed by its
/// alignment; a right-aligned label is the mirror image of a left-aligned one.
pub proof fn law_edge_label_placement(
    corners: [char; 4],
    t: TextModel,
    align: JustifyMethod,
    inner: nat,
    bs: StyleModel,
)
    requires
        inner >= 2,
    ensures
        ({
            let tt = label_fit(t.plain, inner);
            let available = sat_sub(inner as int, (cells(tt) + 2) as int);
            exists|before: nat, after: nat|
                {
                    &&& edge_spec(corners, Some(t), align, inner, bs) == seq![char_seg(corners[0], bs)]
                        + edge_run(corners[1], before, bs) + seq![
                        plain_model(seq![' '], Some(t.style)),
                        plain_model(tt, Some(t.style)),
                        plain_model(seq![' '], Some(t.style)),
                    ] + edge_run(corners[1], after, bs) + seq![char_seg(corners[3], bs)]
                    &&& #[trigger] label_placed(align, before, after, available)
                }
        }),
        side_split(JustifyMethod::Right, inner) == (side_split(JustifyMethod::Left, inner).1, side_split(JustifyMethod::Left, inner).0),
{
    let tt = label_fit(t.plain, inner);
    let available = sat_sub(inner as int, (cells(tt) + 2) as int);
    let (l, r) = side_split(align, available);
    assert(label_placed(align, l, r, available));
    assert(edge_spec(corners, Some(t), align, inner, bs) =~= seq![char_seg(corners[0], bs)]
        + edge_run(corners[1], l, bs) + seq![
        plain_model(seq![' '], Some(t.style)),
        plain_model(tt, Some(t.style)),
        plain_model(seq![' '], Some(t.style)),
    ] + edge_run(corners[1], r, bs) + seq![char_seg(corners[3], bs)]);
}

} // verus!
