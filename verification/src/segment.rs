//! Segment - the atomic rendering unit.
//!
//! A `Segment` is a piece of text with a single style applied. The rendering
//! pipeline produces sequences of segments that are then written to the terminal.
use vstd::prelude::*;
use crate::cells::{cells, chop_cells, fit_count, get_character_cell_size, cell_len, lemma_cells_repeat};
use crate::style::{combine_model, opt_style_model, same_opt_style, Style, StyleModel};
use crate::text_ops::{owned, push_str, repeat_char, spaces, string_from_chars};

verus! {

/// Control codes for terminal manipulation.
#[derive(Debug, Clone, Copy, PartialEq, Eq, Hash, Structural)]
pub enum ControlType {
    Bell,
    CarriageReturn,
    Home,
    Clear,
    ShowCursor,
    HideCursor,
    EnableAltScreen,
    DisableAltScreen,
    CursorUp,
    CursorDown,
    CursorForward,
    CursorBackward,
    CursorMoveToColumn,
    CursorMoveTo,
    EraseInLine,
    SetWindowTitle,
}

/// A control code with optional parameters.
#[derive(Debug, PartialEq, Eq)]
pub struct ControlCode {
    /// What the code does.
    pub control_type: ControlType,
    /// Its numeric parameters.
    pub params: Vec<i32>,
}

/// The value of a control code.
pub struct ControlCodeModel {
    /// What the code does.
    pub control_type: ControlType,
    /// Its numeric parameters.
    pub params: Seq<i32>,
}

impl View for ControlCode {
    type V = ControlCodeModel;

    open spec fn view(&self) -> ControlCodeModel {
        ControlCodeModel { control_type: self.control_type, params: self.params@ }
    }
}

/// Copy of a vector of integers.
fn copy_params(v: &Vec<i32>) -> (r: Vec<i32>)
    ensures
        r@ == v@,
{
    let mut r: Vec<i32> = Vec::new();
    let mut i: usize = 0;
    while i < v.len()
        invariant
            i <= v.len(),
            r@ == v@.take(i as int),
        decreases v.len() - i,
    {
        r.push(v[i]);
        i += 1;
        assert(r@ =~= v@.take(i as int));
    }
    assert(v@.take(v@.len() as int) =~= v@);
    r
}

impl Clone for ControlCode {
    fn clone(&self) -> (c: Self)
        ensures
            c@ == self@,
    {
        ControlCode { control_type: self.control_type, params: copy_params(&self.params) }
    }
}

impl ControlCode {
    /// Create a new control code without parameters.
    pub fn new(control_type: ControlType) -> (c: Self)
        ensures
            c@ == (ControlCodeModel { control_type, params: Seq::empty() }),
    {
        ControlCode { control_type, params: Vec::new() }
    }

    /// Create a control code with parameters.
    pub fn with_params(control_type: ControlType, params: Vec<i32>) -> (c: Self)
        ensures
            c@ == (ControlCodeModel { control_type, params: params@ }),
    {
        ControlCode { control_type, params }
    }
}

/// The values of a sequence of control codes.
pub open spec fn controls_model(v: Seq<ControlCode>) -> Seq<ControlCodeModel> {
    v.map_values(|c: ControlCode| c@)
}

/// Copy of a vector of control codes.
fn copy_controls(v: &Vec<ControlCode>) -> (r: Vec<ControlCode>)
    ensures
        controls_model(r@) == controls_model(v@),
{
    let mut r: Vec<ControlCode> = Vec::new();
    let mut i: usize = 0;
    while i < v.len()
        invariant
            i <= v.len(),
            controls_model(r@) == controls_model(v@.take(i as int)),
        decreases v.len() - i,
    {
        let c = v[i].clone();
        assert(c@ == v@[i as int]@);
        let ghost prev = r@;
        r.push(c);
        proof {
            assert(v@.take(i + 1) =~= v@.take(i as int).push(v@[i as int]));
            assert(controls_model(prev) == controls_model(v@.take(i as int)));
            assert forall|k: int| 0 <= k < i + 1 implies #[trigger] controls_model(r@)[k]
                == controls_model(v@.take(i + 1))[k] by {
                if k < i {
                    assert(controls_model(prev)[k] == controls_model(v@.take(i as int))[k]);
                }
            }
            assert(controls_model(r@) =~= controls_model(v@.take(i + 1)));
        }
        i += 1;
    }
    assert(v@.take(v@.len() as int) =~= v@);
    r
}

/// The atomic unit of rendering: a piece of text with one style, or a run of
/// control codes.
#[derive(Debug, PartialEq, Eq)]
pub struct Segment {
    /// The text content.
    pub text: String,
    /// The style to apply (None = no styling).
    pub style: Option<Style>,
    /// Control codes for terminal manipulation.
    pub control: Option<Vec<ControlCode>>,
}

/// The value of a segment.
pub struct SegmentModel {
    /// The text.
    pub text: Seq<char>,
    /// The style, if any.
    pub style: Option<StyleModel>,
    /// The control codes, for a control segment.
    pub control: Option<Seq<ControlCodeModel>>,
}

impl View for Segment {
    type V = SegmentModel;

    open spec fn view(&self) -> SegmentModel {
        SegmentModel {
            text: self.text@,
            style: opt_style_model(self.style),
            control: match self.control {
                Some(v) => Some(controls_model(v@)),
                None => None,
            },
        }
    }
}

impl Clone for Segment {
    fn clone(&self) -> (s: Self)
        ensures
            s@ == self@,
    {
        Segment {
            text: self.text.clone(),
            style: match &self.style { Some(st) => Some(st.clone()), None => None },
            control: match &self.control { Some(v) => Some(copy_controls(v)), None => None },
        }
    }
}

/// A text segment without control codes.
pub open spec fn plain_model(text: Seq<char>, style: Option<StyleModel>) -> SegmentModel {
    SegmentModel { text, style, control: None }
}

/// Cell width of a segment: control segments take no room.
pub open spec fn seg_cells(m: SegmentModel) -> nat {
    if m.control is Some { 0 } else { cells(m.text) }
}

/// Cell width of a line of segments.
pub open spec fn line_cells(l: Seq<SegmentModel>) -> nat
    decreases l.len(),
{
    if l.len() == 0 { 0 } else { line_cells(l.drop_last()) + seg_cells(l.last()) }
}

/// The values of a sequence of segments.
pub open spec fn segs_model(v: Seq<Segment>) -> Seq<SegmentModel> {
    v.map_values(|s: Segment| s@)
}

/// The values of a sequence of lines of segments.
pub open spec fn lines_model(v: Seq<Vec<Segment>>) -> Seq<Seq<SegmentModel>> {
    v.map_values(|l: Vec<Segment>| segs_model(l@))
}

/// A run of `n` spaces in the given style.
pub open spec fn pad_seg(n: nat, style: Option<StyleModel>) -> SegmentModel {
    plain_model(spaces(n), style)
}

/// The width of a line grows by the width of a segment pushed onto it.
pub proof fn lemma_line_cells_push(l: Seq<SegmentModel>, s: SegmentModel)
    ensures
        line_cells(l.push(s)) == line_cells(l) + seg_cells(s),
{
    assert(l.push(s).drop_last() =~= l);
}

/// The width of a prefix of a line never exceeds the width of the line.
pub proof fn lemma_line_cells_prefix(l: Seq<SegmentModel>, i: int)
    requires
        0 <= i <= l.len(),
    ensures
        line_cells(l.take(i)) <= line_cells(l),
    decreases l.len() - i,
{
    if i < l.len() {
        lemma_line_cells_prefix(l, i + 1);
        assert(l.take(i + 1).drop_last() =~= l.take(i));
    } else {
        assert(l.take(i) =~= l);
    }
}

/// The width of one segment never exceeds the width of its line.
pub proof fn lemma_seg_within_line(l: Seq<SegmentModel>, i: int)
    requires
        0 <= i < l.len(),
    ensures
        seg_cells(l[i]) <= line_cells(l),
{
    lemma_line_cells_prefix(l, i + 1);
    assert(l.take(i + 1).drop_last() =~= l.take(i));
}

/// A space is one cell wide.
fn space_is_one_cell()
    ensures
        crate::cells::char_cells(' ') == 1,
{
    let w = get_character_cell_size(' ');
    assert((' ' as u32) == 32);
}

/// A run of `n` spaces, as a segment in the given style.
pub(crate) fn spaces_segment(n: usize, style: Option<Style>) -> (s: Segment)
    ensures
        s@ == pad_seg(n as nat, opt_style_model(style)),
        seg_cells(s@) == n,
{
    space_is_one_cell();
    proof {
        lemma_cells_repeat(' ', n as nat);
    }
    Segment { text: repeat_char(' ', n), style, control: None }
}

impl Default for Segment {
    fn default() -> (s: Self)
        ensures
            s@ == plain_model(Seq::empty(), None),
    {
        Segment { text: String::new(), style: None, control: None }
    }
}

impl Segment {
    /// Create a new segment with text and optional style.
    pub fn new(text: &str, style: Option<Style>) -> (s: Self)
        ensures
            s@ == plain_model(text@, opt_style_model(style)),
    {
        Segment { text: owned(text), style, control: None }
    }

    /// Create a segment with a style.
    pub fn styled(text: &str, style: Style) -> (s: Self)
        ensures
            s@ == plain_model(text@, Some(style@)),
    {
        Segment::new(text, Some(style))
    }

    /// Create a plain segment with no style.
    pub fn plain(text: &str) -> (s: Self)
        ensures
            s@ == plain_model(text@, None),
    {
        Segment::new(text, None)
    }

    /// Create a newline segment.
    pub fn line() -> (s: Self)
        ensures
            s@ == plain_model(seq!['\n'], None),
    {
        let s = Segment::new("\n", None);
        proof {
            reveal_strlit("\n");
            assert("\n"@ =~= seq!['\n']);
        }
        s
    }

    /// Create a control segment.
    pub fn control(control_codes: Vec<ControlCode>) -> (s: Self)
        ensures
            s@ == (SegmentModel {
                text: Seq::empty(),
                style: None,
                control: Some(controls_model(control_codes@)),
            }),
    {
        Segment { text: String::new(), style: None, control: Some(control_codes) }
    }

    /// Check if this is a control segment.
    pub fn is_control(&self) -> (r: bool)
        ensures
            r == (self@.control is Some),
    {
        self.control.is_some()
    }

    /// Get the cell width of this segment. Control segments have zero width.
    pub fn cell_length(&self) -> (w: usize)
        requires
            seg_cells(self@) <= usize::MAX,
        ensures
            w == seg_cells(self@),
    {
        if self.is_control() {
            0
        } else {
            cell_len(self.text.as_str())
        }
    }

    /// Check if this segment is empty (no text and no control codes).
    pub fn is_empty(&self) -> (r: bool)
        ensures
            r == (self@.text.len() == 0 && self@.control is None),
    {
        self.text.as_str().is_empty() && self.control.is_none()
    }

    /// Apply a style to this segment.
    pub fn with_style(self, style: Style) -> (s: Self)
        ensures
            s@ == (SegmentModel { style: Some(style@), ..self@ }),
    {
        Segment { style: Some(style), ..self }
    }

    /// Split this segment at a cell position.
    ///
    /// The left part keeps the characters that fit in `cell_pos` cells (see
    /// `fit_count`), the right part the rest; both keep the style. A control
    /// segment stays whole on the left, with an empty segment on the right.
    pub fn split_at_cell(&self, cell_pos: usize) -> (r: (Self, Self))
        ensures
            self@.control is Some ==> r.0@ == self@ && r.1@ == plain_model(Seq::empty(), None),
            self@.control is None ==> r.0@ == split_left(self@, cell_pos as nat)
                && r.1@ == split_right(self@, cell_pos as nat),
    {
        if self.is_control() {
            return (self.clone(), Segment::default());
        }
        let (left, right) = chop_cells(self.text.as_str(), cell_pos);
        let ls = match &self.style { Some(s) => Some(s.clone()), None => None };
        let rs = match &self.style { Some(s) => Some(s.clone()), None => None };
        (Segment::new(left, ls), Segment::new(right, rs))
    }

    /// The text of the segment, as it is displayed.
    pub fn to_display_string(&self) -> (s: String)
        ensures
            s@ == self@.text,
    {
        self.text.clone()
    }
}

/// The part of a text segment that fits in `w` cells.
pub open spec fn split_left(m: SegmentModel, w: nat) -> SegmentModel {
    plain_model(m.text.take(fit_count(m.text, w) as int), m.style)
}

/// The part of a text segment beyond the first `w` cells.
pub open spec fn split_right(m: SegmentModel, w: nat) -> SegmentModel {
    plain_model(m.text.skip(fit_count(m.text, w) as int), m.style)
}

/// Get the total cell length of a line of segments.
pub fn line_length(line: &[Segment]) -> (n: usize)
    requires
        line_cells(segs_model(line@)) <= usize::MAX,
    ensures
        n == line_cells(segs_model(line@)),
{
    let ghost m = segs_model(line@);
    let mut total: usize = 0;
    let mut i: usize = 0;
    while i < line.len()
        invariant
            i <= line@.len(),
            m == segs_model(line@),
            m.len() == line@.len(),
            total == line_cells(m.take(i as int)),
            line_cells(m) <= usize::MAX,
        decreases line.len() - i,
    {
        proof {
            assert(m.take(i + 1).drop_last() =~= m.take(i as int));
            lemma_line_cells_prefix(m, i + 1);
            lemma_seg_within_line(m, i as int);
        }
        let w = line[i].cell_length();
        total = total + w;
        i += 1;
    }
    assert(m.take(m.len() as int) =~= m);
    total
}

/// A segment with `pre` combined under its style and `post` combined over it;
/// control segments are left alone.
pub open spec fn apply_style_model(
    m: SegmentModel,
    pre: Option<StyleModel>,
    post: Option<StyleModel>,
) -> SegmentModel {
    if m.control is Some {
        m
    } else {
        let s1 = match pre {
            Some(p) => Some(match m.style { Some(s) => combine_model(p, s), None => p }),
            None => m.style,
        };
        let s2 = match post {
            Some(q) => Some(match s1 { Some(s) => combine_model(s, q), None => q }),
            None => s1,
        };
        SegmentModel { style: s2, ..m }
    }
}

/// The value of an optional style reference.
pub open spec fn opt_ref_style_model(s: Option<&Style>) -> Option<StyleModel> {
    match s {
        Some(s) => Some(s@),
        None => None,
    }
}

/// Apply styles to a sequence of segments: `style` under each segment's own
/// style and `post_style` over it. Control segments pass through unchanged.
pub fn apply_style(segments: Vec<Segment>, style: Option<&Style>, post_style: Option<&Style>) -> (r: Vec<Segment>)
    ensures
        r@.len() == segments@.len(),
        forall|i: int| 0 <= i < r@.len() ==> #[trigger] r@[i]@ == apply_style_model(
            segments@[i]@,
            opt_ref_style_model(style),
            opt_ref_style_model(post_style),
        ),
{
    let mut out: Vec<Segment> = Vec::new();
    let mut i: usize = 0;
    while i < segments.len()
        invariant
            i <= segments@.len(),
            out@.len() == i,
            forall|k: int| 0 <= k < i ==> #[trigger] out@[k]@ == apply_style_model(
                segments@[k]@,
                opt_ref_style_model(style),
                opt_ref_style_model(post_style),
            ),
        decreases segments.len() - i,
    {
        let mut seg = segments[i].clone();
        if !seg.is_control() {
            if let Some(pre) = style {
                let s1 = match &seg.style {
                    Some(s) => pre.combine(s),
                    None => pre.clone(),
                };
                seg.style = Some(s1);
            }
            if let Some(post) = post_style {
                let s2 = match &seg.style {
                    Some(s) => s.combine(post),
                    None => post.clone(),
                };
                seg.style = Some(s2);
            }
        }
        out.push(seg);
        i += 1;
    }
    out
}

/// The pieces of a text between newline characters (as `str::split('\n')`):
/// always at least one piece.
pub open spec fn split_parts(t: Seq<char>) -> Seq<Seq<char>>
    decreases t.len(),
{
    if t.len() == 0 {
        seq![Seq::<char>::empty()]
    } else {
        let p = split_parts(t.drop_last());
        if t.last() == '\n' {
            p.push(Seq::empty())
        } else {
            p.update(p.len() - 1, p.last().push(t.last()))
        }
    }
}

/// There is always at least one piece.
pub proof fn lemma_split_parts_len(t: Seq<char>)
    ensures
        split_parts(t).len() >= 1,
    decreases t.len(),
{
    if t.len() > 0 {
        lemma_split_parts_len(t.drop_last());
    }
}

/// The current line with a non-empty piece of text appended in the given style.
pub open spec fn add_piece(
    lines: Seq<Seq<SegmentModel>>,
    part: Seq<char>,
    style: Option<StyleModel>,
) -> Seq<Seq<SegmentModel>> {
    if part.len() == 0 {
        lines
    } else {
        lines.update(lines.len() - 1, lines.last().push(plain_model(part, style)))
    }
}

/// The pieces of one segment added to the lines: the first piece continues the
/// current line, each later piece starts a new line.
pub open spec fn add_parts(
    lines: Seq<Seq<SegmentModel>>,
    parts: Seq<Seq<char>>,
    style: Option<StyleModel>,
) -> Seq<Seq<SegmentModel>>
    decreases parts.len(),
{
    if parts.len() == 0 {
        lines
    } else {
        let before = add_parts(lines, parts.drop_last(), style);
        let opened = if parts.len() > 1 { before.push(Seq::empty()) } else { before };
        add_piece(opened, parts.last(), style)
    }
}

/// Segments split into lines at newline characters. Control segments stay on
/// the current line; empty pieces of text are dropped.
pub open spec fn split_lines_spec(segs: Seq<SegmentModel>) -> Seq<Seq<SegmentModel>>
    decreases segs.len(),
{
    if segs.len() == 0 {
        seq![Seq::<SegmentModel>::empty()]
    } else {
        let prev = split_lines_spec(segs.drop_last());
        let s = segs.last();
        if s.control is Some {
            prev.update(prev.len() - 1, prev.last().push(s))
        } else {
            add_parts(prev, split_parts(s.text), s.style)
        }
    }
}

/// Adding pieces never removes lines.
pub proof fn lemma_add_parts_len(lines: Seq<Seq<SegmentModel>>, parts: Seq<Seq<char>>, style: Option<StyleModel>)
    requires
        lines.len() >= 1,
    ensures
        add_parts(lines, parts, style).len() >= lines.len(),
    decreases parts.len(),
{
    if parts.len() > 0 {
        lemma_add_parts_len(lines, parts.drop_last(), style);
    }
}

/// There is always at least one line.
pub proof fn lemma_split_lines_len(segs: Seq<SegmentModel>)
    ensures
        split_lines_spec(segs).len() >= 1,
    decreases segs.len(),
{
    if segs.len() > 0 {
        lemma_split_lines_len(segs.drop_last());
        lemma_add_parts_len(split_lines_spec(segs.drop_last()), split_parts(segs.last().text), segs.last().style);
    }
}

/// Number of newline characters in a text.
pub open spec fn newline_count(t: Seq<char>) -> nat
    decreases t.len(),
{
    if t.len() == 0 { 0 } else { newline_count(t.drop_last()) + if t.last() == '\n' { 1nat } else { 0nat } }
}

/// Number of newline characters in the texts of the non-control segments.
pub open spec fn segs_newlines(segs: Seq<SegmentModel>) -> nat
    decreases segs.len(),
{
    if segs.len() == 0 {
        0
    } else if segs.last().control is Some {
        segs_newlines(segs.drop_last())
    } else {
        segs_newlines(segs.drop_last()) + newline_count(segs.last().text)
    }
}

/// A text has one piece more than it has newlines.
proof fn lemma_split_parts_count(t: Seq<char>)
    ensures
        split_parts(t).len() == newline_count(t) + 1,
    decreases t.len(),
{
    if t.len() > 0 {
        lemma_split_parts_count(t.drop_last());
    }
}

/// Each piece after the first adds a line.
proof fn lemma_add_parts_count(lines: Seq<Seq<SegmentModel>>, parts: Seq<Seq<char>>, style: Option<StyleModel>)
    requires
        parts.len() >= 1,
        lines.len() >= 1,
    ensures
        add_parts(lines, parts, style).len() == lines.len() + parts.len() - 1,
    decreases parts.len(),
{
    if parts.len() > 1 {
        lemma_add_parts_count(lines, parts.drop_last(), style);
    } else {
        assert(add_parts(lines, parts.drop_last(), style) == lines);
    }
}

/// Splitting into lines gives one line more than the texts have newlines.
pub proof fn law_split_lines_count(segs: Seq<SegmentModel>)
    ensures
        split_lines_spec(segs).len() == segs_newlines(segs) + 1,
    decreases segs.len(),
{
    if segs.len() > 0 {
        law_split_lines_count(segs.drop_last());
        lemma_split_lines_len(segs.drop_last());
        if segs.last().control is None {
            lemma_split_parts_count(segs.last().text);
            lemma_add_parts_count(split_lines_spec(segs.drop_last()), split_parts(segs.last().text), segs.last().style);
        }
    }
}

/// The values of a sequence of character vectors.
pub open spec fn char_vecs(v: Seq<Vec<char>>) -> Seq<Seq<char>> {
    v.map_values(|p: Vec<char>| p@)
}

/// The pieces of a text between newline characters.
pub(crate) fn split_newlines(text: &str) -> (parts: Vec<Vec<char>>)
    ensures
        char_vecs(parts@) == split_parts(text@),
{
    let chars = crate::text_ops::chars_of(text);
    let mut parts: Vec<Vec<char>> = Vec::new();
    parts.push(Vec::new());
    assert(char_vecs(parts@) =~= split_parts(text@.take(0)));
    let mut i: usize = 0;
    while i < chars.len()
        invariant
            i <= chars@.len(),
            chars@ == text@,
            char_vecs(parts@) == split_parts(text@.take(i as int)),
            parts@.len() >= 1,
        decreases chars.len() - i,
    {
        let c = chars[i];
        proof {
            assert(text@.take(i + 1).drop_last() =~= text@.take(i as int));
            lemma_split_parts_len(text@.take(i as int));
        }
        let ghost prev = parts@;
        if c == '\n' {
            parts.push(Vec::new());
            assert(char_vecs(parts@) =~= char_vecs(prev).push(Seq::empty()));
        } else {
            let mut last = parts.pop().unwrap();
            last.push(c);
            parts.push(last);
            assert(char_vecs(parts@) =~= char_vecs(prev).update(prev.len() - 1, char_vecs(prev).last().push(c)));
        }
        i += 1;
    }
    assert(text@.take(chars@.len() as int) =~= text@);
    parts
}

/// Append a segment to the last line.
fn push_on_last(lines: &mut Vec<Vec<Segment>>, seg: Segment)
    requires
        old(lines)@.len() >= 1,
    ensures
        lines_model(final(lines)@) == lines_model(old(lines)@).update(
            old(lines)@.len() - 1,
            lines_model(old(lines)@).last().push(seg@),
        ),
{
    let ghost prev = lines@;
    let mut last = lines.pop().unwrap();
    let ghost last_before = last@;
    last.push(seg);
    assert(segs_model(last@) =~= segs_model(last_before).push(seg@));
    lines.push(last);
    assert(lines_model(lines@) =~= lines_model(prev).update(prev.len() - 1, lines_model(prev).last().push(seg@)));
}

/// Split segments into lines at newline characters.
#[verifier::spinoff_prover]
#[verifier::rlimit(40)]
pub fn split_lines(segments: Vec<Segment>) -> (lines: Vec<Vec<Segment>>)
    ensures
        lines_model(lines@) == split_lines_spec(segs_model(segments@)),
{
    let ghost m = segs_model(segments@);
    let mut lines: Vec<Vec<Segment>> = Vec::new();
    lines.push(Vec::new());
    assert(m.take(0) =~= Seq::<SegmentModel>::empty());
    assert(segs_model(lines@[0]@) =~= Seq::<SegmentModel>::empty());
    assert(lines_model(lines@) =~= split_lines_spec(m.take(0)));
    let mut i: usize = 0;
    while i < segments.len()
        invariant
            i <= segments@.len(),
            m == segs_model(segments@),
            lines_model(lines@) == split_lines_spec(m.take(i as int)),
            lines@.len() >= 1,
        decreases segments.len() - i,
    {
        proof {
            assert(m.take(i + 1).drop_last() =~= m.take(i as int));
            assert(m.take(i + 1).last() == m[i as int]);
            lemma_split_lines_len(m.take(i as int));
        }
        let segment = &segments[i];
        assert(m[i as int] == segment@);
        if segment.is_control() {
            push_on_last(&mut lines, segment.clone());
        } else {
            let parts = split_newlines(segment.text.as_str());
            let ghost start = lines_model(lines@);
            let ghost pv = char_vecs(parts@);
            let mut j: usize = 0;
            while j < parts.len()
                invariant
                    j <= parts@.len(),
                    pv == char_vecs(parts@),
                    start.len() >= 1,
                    lines_model(lines@) == add_parts(start, pv.take(j as int), segment@.style),
                    lines@.len() >= 1,
                decreases parts.len() - j,
            {
                let ghost before = lines_model(lines@);
                let ghost st = segment@.style;
                proof {
                    assert(pv.take(j + 1).drop_last() =~= pv.take(j as int));
                    assert(pv.take(j + 1).last() == pv[j as int]);
                    lemma_add_parts_len(start, pv.take(j as int), st);
                }
                assert(pv[j as int] == parts@[j as int]@);
                let ghost opened = if j + 1 > 1 { before.push(Seq::<SegmentModel>::empty()) } else { before };
                if j > 0 {
                    let ghost prev = lines@;
                    lines.push(Vec::new());
                    assert(segs_model(lines@.last()@) =~= Seq::<SegmentModel>::empty());
                    assert(lines_model(lines@) =~= lines_model(prev).push(Seq::empty()));
                }
                assert(lines_model(lines@) == opened);
                if parts[j].len() > 0 {
                    let text = string_from_chars(&parts[j]);
                    let style = match &segment.style { Some(s) => Some(s.clone()), None => None };
                    let seg = Segment { text, style, control: None };
                    assert(seg@ == plain_model(pv[j as int], st));
                    push_on_last(&mut lines, seg);
                }
                assert(lines_model(lines@) == add_piece(opened, pv[j as int], st));
                assert(add_parts(start, pv.take(j + 1), st) == add_piece(opened, pv[j as int], st));
                j += 1;
            }
            assert(pv.take(pv.len() as int) =~= pv);
            assert(lines_model(lines@) == add_parts(start, pv, segment@.style));
            assert(pv == split_parts(m[i as int].text));
            assert(start == split_lines_spec(m.take(i as int)));
            assert(lines_model(lines@) == split_lines_spec(m.take(i + 1)));
        }
        i += 1;
    }
    assert(m.take(m.len() as int) =~= m);
    lines
}

/// A line truncated to `remaining` cells: control segments are kept, text
/// segments are kept while they fit, the first one that does not fit is cut
/// (see `split_left`) and ends the line.
pub open spec fn truncate_spec(segs: Seq<SegmentModel>, remaining: nat) -> Seq<SegmentModel>
    decreases segs.len(),
{
    if segs.len() == 0 {
        Seq::empty()
    } else {
        let s = segs[0];
        let rest = segs.drop_first();
        if s.control is Some {
            seq![s] + truncate_spec(rest, remaining)
        } else if cells(s.text) <= remaining {
            seq![s] + truncate_spec(rest, (remaining - cells(s.text)) as nat)
        } else if remaining > 0 {
            seq![split_left(s, remaining)]
        } else {
            Seq::empty()
        }
    }
}

/// Truncate a line to a maximum cell width.
fn truncate_line(segments: Vec<Segment>, max_width: usize) -> (r: Vec<Segment>)
    requires
        line_cells(segs_model(segments@)) <= usize::MAX,
    ensures
        segs_model(r@) == truncate_spec(segs_model(segments@), max_width as nat),
{
    let ghost m = segs_model(segments@);
    let mut result: Vec<Segment> = Vec::new();
    let mut remaining: usize = max_width;
    let mut i: usize = 0;
    assert(m.skip(0) =~= m);
    assert(segs_model(result@) + m =~= m);
    while i < segments.len()
        invariant
            i <= segments@.len(),
            m == segs_model(segments@),
            m.len() == segments@.len(),
            line_cells(m) <= usize::MAX,
            segs_model(result@) + truncate_spec(m.skip(i as int), remaining as nat)
                == truncate_spec(m, max_width as nat),
        decreases segments.len() - i,
    {
        proof {
            assert(m.skip(i as int).drop_first() =~= m.skip(i + 1));
            assert(m.skip(i as int)[0] == m[i as int]);
            lemma_seg_within_line(m, i as int);
        }
        let ghost prev = segs_model(result@);
        let segment = segments[i].clone();
        if segment.is_control() {
            result.push(segment);
            assert(segs_model(result@) =~= prev.push(m[i as int]));
            assert(prev + truncate_spec(m.skip(i as int), remaining as nat)
                =~= prev.push(m[i as int]) + truncate_spec(m.skip(i + 1), remaining as nat));
        } else {
            let seg_width = segment.cell_length();
            if seg_width <= remaining {
                result.push(segment);
                assert(segs_model(result@) =~= prev.push(m[i as int]));
                assert(prev + truncate_spec(m.skip(i as int), remaining as nat)
                    =~= prev.push(m[i as int]) + truncate_spec(m.skip(i + 1), (remaining - seg_width) as nat));
                remaining = remaining - seg_width;
            } else if remaining > 0 {
                let (left, _right) = segment.split_at_cell(remaining);
                result.push(left);
                assert(segs_model(result@) =~= prev.push(split_left(m[i as int], remaining as nat)));
                assert(prev + truncate_spec(m.skip(i as int), remaining as nat) =~= segs_model(result@));
                return result;
            } else {
                assert(prev + truncate_spec(m.skip(i as int), remaining as nat) =~= prev);
                return result;
            }
        }
        i += 1;
    }
    assert(m.skip(m.len() as int) =~= Seq::<SegmentModel>::empty());
    assert(segs_model(result@) + Seq::<SegmentModel>::empty() =~= segs_model(result@));
    result
}

/// What `adjust_line_length` returns: a short line padded with spaces in
/// `style` when `pad` is set, a long line truncated, others unchanged.
pub open spec fn adjust_spec(
    line: Seq<SegmentModel>,
    length: nat,
    style: Option<StyleModel>,
    pad: bool,
) -> Seq<SegmentModel> {
    let current = line_cells(line);
    if current < length && pad {
        line.push(pad_seg((length - current) as nat, style))
    } else if current > length {
        truncate_spec(line, length)
    } else {
        line
    }
}

/// Adjust line length by padding or truncating.
pub fn adjust_line_length(line: Vec<Segment>, length: usize, style: Option<Style>, pad: bool) -> (r: Vec<Segment>)
    requires
        line_cells(segs_model(line@)) <= usize::MAX,
    ensures
        segs_model(r@) == adjust_spec(segs_model(line@), length as nat, opt_style_model(style), pad),
{
    let current_length = line_length(line.as_slice());
    let mut line = line;
    if current_length < length && pad {
        let ghost prev = line@;
        let seg = spaces_segment(length - current_length, style);
        line.push(seg);
        assert(segs_model(line@) =~= segs_model(prev).push(seg@));
        line
    } else if current_length > length {
        truncate_line(line, length)
    } else {
        line
    }
}

/// One step of `simplify`: control segments are kept, empty text segments
/// dropped, and a text segment with the same style as a text segment before it
/// is merged into that one.
pub open spec fn simplify_step(acc: Seq<SegmentModel>, s: SegmentModel) -> Seq<SegmentModel> {
    if s.control is Some {
        acc.push(s)
    } else if s.text.len() == 0 {
        acc
    } else if acc.len() > 0 && acc.last().control is None && acc.last().style == s.style {
        acc.update(acc.len() - 1, SegmentModel { text: acc.last().text + s.text, ..acc.last() })
    } else {
        acc.push(s)
    }
}

/// Segments with adjacent text segments of identical style merged.
pub open spec fn simplify_spec(segs: Seq<SegmentModel>) -> Seq<SegmentModel>
    decreases segs.len(),
{
    if segs.len() == 0 {
        Seq::empty()
    } else {
        simplify_step(simplify_spec(segs.drop_last()), segs.last())
    }
}

/// Simplify segments by merging adjacent segments with identical styles.
pub fn simplify(segments: Vec<Segment>) -> (r: Vec<Segment>)
    ensures
        segs_model(r@) == simplify_spec(segs_model(segments@)),
{
    let ghost m = segs_model(segments@);
    let mut result: Vec<Segment> = Vec::new();
    let mut i: usize = 0;
    assert(segs_model(result@) =~= simplify_spec(m.take(0)));
    while i < segments.len()
        invariant
            i <= segments@.len(),
            m == segs_model(segments@),
            segs_model(result@) == simplify_spec(m.take(i as int)),
        decreases segments.len() - i,
    {
        proof {
            assert(m.take(i + 1).drop_last() =~= m.take(i as int));
        }
        let ghost prev = segs_model(result@);
        let segment = segments[i].clone();
        if segment.is_control() {
            result.push(segment);
            assert(segs_model(result@) =~= prev.push(m[i as int]));
        } else if segment.text.as_str().is_empty() {
        } else {
            let n = result.len();
            let mergeable = n > 0 && !result[n - 1].is_control() && same_opt_style(&result[n - 1].style, &segment.style);
            if mergeable {
                let mut last = result.pop().unwrap();
                let ghost last_before = last@;
                push_str(&mut last.text, segment.text.as_str());
                assert(last@ == (SegmentModel { text: last_before.text + m[i as int].text, ..last_before }));
                result.push(last);
                assert(segs_model(result@) =~= prev.update(prev.len() - 1,
                    SegmentModel { text: prev.last().text + m[i as int].text, ..prev.last() }));
            } else {
                result.push(segment);
                assert(segs_model(result@) =~= prev.push(m[i as int]));
            }
        }
        i += 1;
    }
    assert(m.take(m.len() as int) =~= m);
    result
}

/// A line padded with spaces in `style` up to `width` cells; wider lines are
/// left as they are.
pub open spec fn pad_line(l: Seq<SegmentModel>, width: nat, style: StyleModel) -> Seq<SegmentModel> {
    if line_cells(l) < width {
        l.push(pad_seg((width - line_cells(l)) as nat, Some(style)))
    } else {
        l
    }
}

/// A blank line of `width` spaces in `style`.
pub open spec fn blank_line(width: nat, style: StyleModel) -> Seq<SegmentModel> {
    seq![pad_seg(width, Some(style))]
}

/// Every line fits the machine's cell count.
pub open spec fn lines_fit(lines: Seq<Seq<SegmentModel>>) -> bool {
    forall|i: int| 0 <= i < lines.len() ==> line_cells(#[trigger] lines[i]) <= usize::MAX
}

/// Copy of a line of segments.
pub(crate) fn copy_line(l: &Vec<Segment>) -> (r: Vec<Segment>)
    ensures
        segs_model(r@) == segs_model(l@),
{
    let mut r: Vec<Segment> = Vec::new();
    let mut i: usize = 0;
    while i < l.len()
        invariant
            i <= l@.len(),
            r@.len() == i,
            segs_model(r@) == segs_model(l@.take(i as int)),
        decreases l.len() - i,
    {
        let ghost prev = r@;
        let s = l[i].clone();
        assert(s@ == l@[i as int]@);
        r.push(s);
        proof {
            assert(l@.take(i + 1) =~= l@.take(i as int).push(l@[i as int]));
            assert(r@ == prev.push(s));
            assert(segs_model(r@)[i as int] == s@);
            assert(segs_model(l@.take(i + 1))[i as int] == l@[i as int]@);
            assert forall|k: int| 0 <= k < i + 1 implies #[trigger] segs_model(r@)[k]
                == segs_model(l@.take(i + 1))[k] by {
                if k < i {
                    assert(segs_model(prev)[k] == segs_model(l@.take(i as int))[k]);
                    assert(segs_model(r@)[k] == segs_model(prev)[k]);
                    assert(segs_model(l@.take(i + 1))[k] == segs_model(l@.take(i as int))[k]);
                }
            }
            assert(segs_model(r@) =~= segs_model(l@.take(i + 1)));
        }
        i += 1;
    }
    assert(l@.take(l@.len() as int) =~= l@);
    r
}

/// A copy of a line padded to `width` cells.
fn padded_line(l: &Vec<Segment>, width: usize, style: &Style) -> (r: Vec<Segment>)
    requires
        line_cells(segs_model(l@)) <= usize::MAX,
    ensures
        segs_model(r@) == pad_line(segs_model(l@), width as nat, style@),
{
    let mut line = copy_line(l);
    let line_width = line_length(line.as_slice());
    if line_width < width {
        let ghost prev = line@;
        let seg = spaces_segment(width - line_width, Some(style.clone()));
        line.push(seg);
        assert(segs_model(line@) =~= segs_model(prev).push(seg@));
    }
    line
}

/// A blank line of `width` spaces.
fn blank(width: usize, style: &Style) -> (r: Vec<Segment>)
    ensures
        segs_model(r@) == blank_line(width as nat, style@),
{
    let mut r: Vec<Segment> = Vec::new();
    let seg = spaces_segment(width, Some(style.clone()));
    r.push(seg);
    assert(segs_model(r@) =~= blank_line(width as nat, style@));
    r
}

/// Append `n` blank lines.
fn push_blanks(out: &mut Vec<Vec<Segment>>, n: usize, width: usize, style: &Style)
    ensures
        final(out)@.len() == old(out)@.len() + n,
        forall|k: int| 0 <= k < old(out)@.len() ==> lines_model(final(out)@)[k] == lines_model(old(out)@)[k],
        forall|k: int| old(out)@.len() <= k < final(out)@.len() ==> lines_model(final(out)@)[k]
            == blank_line(width as nat, style@),
{
    let mut j: usize = 0;
    while j < n
        invariant
            j <= n,
            out@.len() == old(out)@.len() + j,
            forall|k: int| 0 <= k < old(out)@.len() ==> lines_model(out@)[k] == lines_model(old(out)@)[k],
            forall|k: int| old(out)@.len() <= k < out@.len() ==> lines_model(out@)[k]
                == blank_line(width as nat, style@),
        decreases n - j,
    {
        let b = blank(width, style);
        let ghost prev = out@;
        out.push(b);
        assert(lines_model(out@) =~= lines_model(prev).push(segs_model(b@)));
        j += 1;
    }
}

/// Append each line padded to `width` cells.
fn push_padded(out: &mut Vec<Vec<Segment>>, lines: &Vec<Vec<Segment>>, width: usize, style: &Style)
    requires
        lines_fit(lines_model(lines@)),
    ensures
        final(out)@.len() == old(out)@.len() + lines@.len(),
        forall|k: int| 0 <= k < old(out)@.len() ==> lines_model(final(out)@)[k] == lines_model(old(out)@)[k],
        forall|k: int| 0 <= k < lines@.len() ==> lines_model(final(out)@)[old(out)@.len() + k]
            == pad_line(lines_model(lines@)[k], width as nat, style@),
{
    let mut j: usize = 0;
    while j < lines.len()
        invariant
            j <= lines@.len(),
            lines_fit(lines_model(lines@)),
            out@.len() == old(out)@.len() + j,
            forall|k: int| 0 <= k < old(out)@.len() ==> lines_model(out@)[k] == lines_model(old(out)@)[k],
            forall|k: int| 0 <= k < j ==> lines_model(out@)[old(out)@.len() + k]
                == pad_line(lines_model(lines@)[k], width as nat, style@),
        decreases lines.len() - j,
    {
        assert(lines_model(lines@)[j as int] == segs_model(lines@[j as int]@));
        let p = padded_line(&lines[j], width, style);
        let ghost prev = out@;
        out.push(p);
        assert(lines_model(out@) =~= lines_model(prev).push(segs_model(p@)));
        j += 1;
    }
}

/// Align lines to the top of a given height: each line is padded to `width`
/// cells, and blank lines are added below until there are `height` lines.
pub fn align_top(lines: Vec<Vec<Segment>>, width: usize, height: usize, style: Style) -> (r: Vec<Vec<Segment>>)
    requires
        lines_fit(lines_model(lines@)),
    ensures
        r@.len() == if lines@.len() < height { height as int } else { lines@.len() as int },
        forall|k: int| 0 <= k < lines@.len() ==> lines_model(r@)[k]
            == pad_line(lines_model(lines@)[k], width as nat, style@),
        forall|k: int| lines@.len() <= k < r@.len() ==> lines_model(r@)[k]
            == blank_line(width as nat, style@),
{
    let mut out: Vec<Vec<Segment>> = Vec::new();
    push_padded(&mut out, &lines, width, &style);
    if lines.len() < height {
        push_blanks(&mut out, height - lines.len(), width, &style);
    }
    out
}

/// Align lines to the bottom of a given height: blank lines are added above
/// until there are `height` lines, and each line is padded to `width` cells.
pub fn align_bottom(lines: Vec<Vec<Segment>>, width: usize, height: usize, style: Style) -> (r: Vec<Vec<Segment>>)
    requires
        lines_fit(lines_model(lines@)),
    ensures
        ({
            let top = if lines@.len() < height { height - lines@.len() } else { 0 };
            &&& r@.len() == top + lines@.len()
            &&& forall|k: int| 0 <= k < top ==> lines_model(r@)[k] == blank_line(width as nat, style@)
            &&& forall|k: int| 0 <= k < lines@.len() ==> lines_model(r@)[top + k]
                == pad_line(lines_model(lines@)[k], width as nat, style@)
        }),
{
    let mut out: Vec<Vec<Segment>> = Vec::new();
    let top = if lines.len() < height { height - lines.len() } else { 0 };
    push_blanks(&mut out, top, width, &style);
    push_padded(&mut out, &lines, width, &style);
    out
}

/// Align lines to the middle of a given height: the missing lines are split
/// between top and bottom (the bottom gets the extra one), each line padded to
/// `width` cells. Content at least `height` lines tall is aligned to the top.
pub fn align_middle(lines: Vec<Vec<Segment>>, width: usize, height: usize, style: Style) -> (r: Vec<Vec<Segment>>)
    requires
        lines_fit(lines_model(lines@)),
    ensures
        lines@.len() >= height ==> r@.len() == lines@.len()
            && forall|k: int| 0 <= k < lines@.len() ==> lines_model(r@)[k]
                == pad_line(lines_model(lines@)[k], width as nat, style@),
        lines@.len() < height ==> ({
            let top = (height - lines@.len()) / 2;
            &&& r@.len() == height
            &&& forall|k: int| 0 <= k < top ==> lines_model(r@)[k] == blank_line(width as nat, style@)
            &&& forall|k: int| 0 <= k < lines@.len() ==> lines_model(r@)[top + k]
                == pad_line(lines_model(lines@)[k], width as nat, style@)
            &&& forall|k: int| top + lines@.len() <= k < height ==> lines_model(r@)[k]
                == blank_line(width as nat, style@)
        }),
{
    let content_height = lines.len();
    if content_height >= height {
        return align_top(lines, width, height, style);
    }
    let total_padding = height - content_height;
    let top_padding = total_padding / 2;
    let bottom_padding = total_padding - top_padding;
    let mut out: Vec<Vec<Segment>> = Vec::new();
    push_blanks(&mut out, top_padding, width, &style);
    push_padded(&mut out, &lines, width, &style);
    push_blanks(&mut out, bottom_padding, width, &style);
    out
}

/// Non-decreasing cut positions.
pub open spec fn cuts_sorted(cuts: Seq<usize>) -> bool {
    forall|a: int, b: int| 0 <= a <= b < cuts.len() ==> cuts[a] <= cuts[b]
}

/// Divide a line of segments at the given cell positions into
/// `cuts.len() + 1` parts; a segment that spans a cut is split there (see
/// `split_at_cell`). With no cuts the line comes back whole.
pub fn divide(segments: Vec<Segment>, cuts: &[usize]) -> (r: Vec<Vec<Segment>>)
    requires
        cuts_sorted(cuts@),
        forall|k: int| 0 <= k < cuts@.len() ==> cuts@[k] + line_cells(segs_model(segments@)) <= usize::MAX,
    ensures
        cuts@.len() == 0 ==> lines_model(r@) == seq![segs_model(segments@)],
        cuts@.len() > 0 ==> r@.len() == cuts@.len() + 1,
{
    if cuts.len() == 0 {
        let mut r: Vec<Vec<Segment>> = Vec::new();
        let ghost sm = segs_model(segments@);
        r.push(segments);
        assert(lines_model(r@) =~= seq![sm]);
        return r;
    }
    let ghost m = segs_model(segments@);
    let ghost total = line_cells(m);
    assert(cuts@[0] + total <= usize::MAX);
    let mut done: Vec<Vec<Segment>> = Vec::new();
    let mut current: Vec<Segment> = Vec::new();
    let mut current_pos: usize = 0;
    let mut cut_idx: usize = 0;
    let mut i: usize = 0;
    while i < segments.len()
        invariant
            i <= segments@.len(),
            m == segs_model(segments@),
            m.len() == segments@.len(),
            total == line_cells(m),
            cut_idx <= cuts@.len(),
            done@.len() == cut_idx,
            current_pos == line_cells(m.take(i as int)),
            cuts_sorted(cuts@),
            forall|k: int| 0 <= k < cuts@.len() ==> cuts@[k] + total <= usize::MAX,
            cuts@.len() > 0,
            total <= usize::MAX,
        decreases segments.len() - i,
    {
        proof {
            assert(m.take(i + 1).drop_last() =~= m.take(i as int));
            lemma_line_cells_prefix(m, i + 1);
            lemma_seg_within_line(m, i as int);
            assert(m[i as int] == segments@[i as int]@);
            assert(cuts@[0] + total <= usize::MAX);
        }
        let segment = segments[i].clone();
        let seg_width = segment.cell_length();
        if segment.is_control() {
            current.push(segment);
        } else {
            let seg_end = current_pos + seg_width;
            while cut_idx < cuts.len() && cuts[cut_idx] <= current_pos
                invariant
                    cut_idx <= cuts@.len(),
                    done@.len() == cut_idx,
                decreases cuts@.len() - cut_idx,
            {
                done.push(current);
                current = Vec::new();
                cut_idx += 1;
            }
            if cut_idx >= cuts.len() || seg_end <= cuts[cut_idx] {
                current.push(segment);
            } else {
                let mut remaining = segment;
                let mut pos = current_pos;
                while cut_idx < cuts.len() && pos + remaining.cell_length() > cuts[cut_idx]
                    invariant
                        cut_idx <= cuts@.len(),
                        done@.len() == cut_idx,
                        cuts_sorted(cuts@),
                        forall|k: int| 0 <= k < cuts@.len() ==> cuts@[k] + total <= usize::MAX,
                        total <= usize::MAX,
                        cut_idx < cuts@.len() ==> pos <= cuts@[cut_idx as int],
                        pos + cells(remaining@.text) <= usize::MAX,
                        remaining@.control is None,
                        cells(remaining@.text) <= total,
                    decreases cuts@.len() - cut_idx,
                {
                    let split_at = cuts[cut_idx] - pos;
                    let (left, right) = remaining.split_at_cell(split_at);
                    proof {
                        let t = remaining@.text;
                        let k = fit_count(t, split_at as nat);
                        crate::cells::lemma_fit_count(t, split_at as nat);
                        crate::cells::lemma_cells_concat(t.take(k as int), t.skip(k as int));
                        assert(t.take(k as int) + t.skip(k as int) =~= t);
                    }
                    if !left.text.as_str().is_empty() {
                        current.push(left);
                    }
                    pos = cuts[cut_idx];
                    done.push(current);
                    current = Vec::new();
                    cut_idx += 1;
                    remaining = right;
                }
                if !remaining.text.as_str().is_empty() {
                    current.push(remaining);
                }
            }
        }
        current_pos = current_pos + seg_width;
        i += 1;
    }
    done.push(current);
    while done.len() <= cuts.len()
        invariant
            done@.len() <= cuts@.len() + 1,
        decreases cuts@.len() + 1 - done@.len(),
    {
        done.push(Vec::new());
    }
    done
}

/// The texts of a sequence of segments, one after another.
pub open spec fn segs_text(segs: Seq<SegmentModel>) -> Seq<char>
    decreases segs.len(),
{
    if segs.len() == 0 { Seq::empty() } else { segs_text(segs.drop_last()) + segs.last().text }
}

/// Splitting a text segment at a cell position loses nothing: the two parts
/// put together give the text back, both keep the style, and the left part
/// is the longest front part that fits in the position: it fits, and with the
/// first character of the right part it would not.
pub proof fn law_split_at_cell_lossless(m: SegmentModel, w: nat)
    requires
        m.control is None,
    ensures
        split_left(m, w).text + split_right(m, w).text == m.text,
        split_left(m, w).style == m.style && split_right(m, w).style == m.style,
        cells(split_left(m, w).text) <= w,
        split_right(m, w).text.len() > 0 ==> cells(split_left(m, w).text + seq![split_right(m, w).text[0]]) > w,
{
    crate::cells::lemma_fit_count(m.text, w);
    let k = fit_count(m.text, w) as int;
    assert(m.text.take(k) + m.text.skip(k) =~= m.text);
    if k < m.text.len() {
        assert(m.text.skip(k)[0] == m.text[k]);
        crate::cells::lemma_cells_concat(m.text.take(k), seq![m.text[k]]);
        crate::cells::lemma_cells_single(m.text[k]);
    }
}

/// Truncation keeps a line within the limit.
pub proof fn lemma_truncate_within(segs: Seq<SegmentModel>, remaining: nat)
    ensures
        line_cells(truncate_spec(segs, remaining)) <= remaining,
    decreases segs.len(),
{
    if segs.len() > 0 {
        let s = segs[0];
        let rest = segs.drop_first();
        if s.control is Some {
            lemma_truncate_within(rest, remaining);
            lemma_line_cells_prepend(s, truncate_spec(rest, remaining));
        } else if cells(s.text) <= remaining {
            lemma_truncate_within(rest, (remaining - cells(s.text)) as nat);
            lemma_line_cells_prepend(s, truncate_spec(rest, (remaining - cells(s.text)) as nat));
        } else if remaining > 0 {
            crate::cells::lemma_fit_count(s.text, remaining);
            lemma_line_cells_push(Seq::empty(), split_left(s, remaining));
            assert(seq![split_left(s, remaining)] =~= Seq::<SegmentModel>::empty().push(split_left(s, remaining)));
        }
    }
}

/// The width of a line with a segment in front.
pub proof fn lemma_line_cells_prepend(s: SegmentModel, l: Seq<SegmentModel>)
    ensures
        line_cells(seq![s] + l) == seg_cells(s) + line_cells(l),
    decreases l.len(),
{
    if l.len() == 0 {
        assert(seq![s] + l =~= Seq::<SegmentModel>::empty().push(s));
        lemma_line_cells_push(Seq::empty(), s);
    } else {
        assert((seq![s] + l).drop_last() =~= seq![s] + l.drop_last());
        lemma_line_cells_prepend(s, l.drop_last());
    }
}

/// Adjusting a line's length never leaves it wider than asked, and a padded
/// line that was not wider comes out exactly as wide as asked (spaces being
/// one cell wide).
pub proof fn law_adjust_line_length_width(line: Seq<SegmentModel>, length: nat, style: Option<StyleModel>, pad: bool)
    requires
        crate::cells::char_cells(' ') == 1,
    ensures
        line_cells(adjust_spec(line, length, style, pad)) <= length,
        pad && line_cells(line) <= length ==> line_cells(adjust_spec(line, length, style, pad)) == length,
        !pad && line_cells(line) <= length ==> adjust_spec(line, length, style, pad) == line,
{
    let current = line_cells(line);
    if current < length && pad {
        lemma_line_cells_push(line, pad_seg((length - current) as nat, style));
        lemma_cells_repeat(' ', (length - current) as nat);
    } else if current > length {
        lemma_truncate_within(line, length);
    }
}

/// One step of simplifying appends the segment's text.
pub proof fn lemma_simplify_step_text(acc: Seq<SegmentModel>, m: SegmentModel)
    ensures
        segs_text(simplify_step(acc, m)) == segs_text(acc) + m.text,
{
    if m.control is Some {
        assert(acc.push(m).drop_last() =~= acc);
    } else if m.text.len() == 0 {
        assert(segs_text(acc) + m.text =~= segs_text(acc));
    } else if acc.len() > 0 && acc.last().control is None && acc.last().style == m.style {
        let merged = SegmentModel { text: acc.last().text + m.text, ..acc.last() };
        let r = acc.update(acc.len() - 1, merged);
        assert(r.drop_last() =~= acc.drop_last());
        assert(segs_text(r) =~= segs_text(acc) + m.text);
    } else {
        assert(acc.push(m).drop_last() =~= acc);
    }
}

/// Simplifying keeps every character: the texts of the simplified segments,
/// put together, are those of the segments given.
pub proof fn law_simplify_keeps_text(segs: Seq<SegmentModel>)
    ensures
        segs_text(simplify_spec(segs)) == segs_text(segs),
    decreases segs.len(),
{
    if segs.len() > 0 {
        law_simplify_keeps_text(segs.drop_last());
        lemma_simplify_step_text(simplify_spec(segs.drop_last()), segs.last());
    }
}

/// No text segment is empty, and no two neighbouring text segments share a
/// style.
pub open spec fn fully_merged(r: Seq<SegmentModel>) -> bool {
    &&& forall|i: int| 0 <= i < r.len() && (#[trigger] r[i]).control is None ==> r[i].text.len() > 0
    &&& forall|i: int, j: int|
        #![trigger r[i], r[j]]
        0 <= i && j == i + 1 && j < r.len() && r[i].control is None && r[j].control is None
            ==> r[i].style != r[j].style
}

/// Simplifying leaves nothing more to merge: no empty text segment is left,
/// and neighbouring text segments have different styles.
pub proof fn law_simplify_fully_merged(segs: Seq<SegmentModel>)
    ensures
        fully_merged(simplify_spec(segs)),
    decreases segs.len(),
{
    if segs.len() > 0 {
        law_simplify_fully_merged(segs.drop_last());
        let acc = simplify_spec(segs.drop_last());
        let m = segs.last();
        let r = simplify_spec(segs);
        assert(r == simplify_step(acc, m));
        if m.control is Some || m.text.len() == 0 {
        } else if acc.len() > 0 && acc.last().control is None && acc.last().style == m.style {
            assert forall|i: int, j: int|
                #![trigger r[i], r[j]]
                0 <= i && j == i + 1 && j < r.len() && r[i].control is None && r[j].control is None
                    implies r[i].style != r[j].style by {
                assert(acc[i] == r[i]);
                assert(r[j].style == acc[j].style && r[j].control == acc[j].control);
            }
        } else {
            assert forall|i: int, j: int|
                #![trigger r[i], r[j]]
                0 <= i && j == i + 1 && j < r.len() && r[i].control is None && r[j].control is None
                    implies r[i].style != r[j].style by {
                assert(acc[i] == r[i]);
                if j < acc.len() {
                    assert(acc[j] == r[j]);
                }
            }
        }
    }
}

/// Padding a line to a width gives it at least that width: exactly the width
/// when it was narrower (spaces being one cell wide).
pub proof fn law_pad_line_width(l: Seq<SegmentModel>, width: nat, style: StyleModel)
    requires
        crate::cells::char_cells(' ') == 1,
    ensures
        line_cells(pad_line(l, width, style)) == if line_cells(l) < width { width } else { line_cells(l) },
{
    if line_cells(l) < width {
        lemma_line_cells_push(l, pad_seg((width - line_cells(l)) as nat, Some(style)));
        lemma_cells_repeat(' ', (width - line_cells(l)) as nat);
    }
}

/// A one-character segment.
pub open spec fn char_seg(c: char, s: StyleModel) -> SegmentModel {
    plain_model(seq![c], Some(s))
}

/// Appends a segment.
pub(crate) fn push_seg(v: &mut Vec<Segment>, s: Segment)
    ensures
        segs_model(final(v)@) == segs_model(old(v)@).push(s@),
{
    let ghost prev = v@;
    v.push(s);
    assert(segs_model(v@) =~= segs_model(prev).push(s@));
}

/// Appends segments, in order.
pub(crate) fn push_segs(v: &mut Vec<Segment>, w: Vec<Segment>)
    ensures
        segs_model(final(v)@) == segs_model(old(v)@) + segs_model(w@),
{
    let ghost prev = v@;
    let ghost wv = w@;
    let mut w = w;
    v.append(&mut w);
    assert(segs_model(v@) =~= segs_model(prev) + segs_model(wv));
}

/// A one-character segment.
pub(crate) fn char_segment(c: char, style: &Style) -> (s: Segment)
    ensures
        s@ == char_seg(c, style@),
{
    let mut t = String::new();
    crate::text_ops::push_char(&mut t, c);
    assert(t@ =~= seq![c]);
    Segment { text: t, style: Some(style.clone()), control: None }
}

/// A line without a trailing carriage return.
pub open spec fn strip_cr(p: Seq<char>) -> Seq<char> {
    if p.len() > 0 && p.last() == '\r' { p.drop_last() } else { p }
}

/// The lines of a text as `str::lines` yields them: split at newlines, a
/// carriage return before a newline dropped, no last line after a final
/// newline.
pub open spec fn text_lines(t: Seq<char>) -> Seq<Seq<char>> {
    let parts = split_parts(t);
    let body = Seq::new((parts.len() - 1) as nat, |i: int| strip_cr(parts[i]));
    if parts.last().len() == 0 { body } else { body.push(parts.last()) }
}

/// The lines of a text as `str::lines` yields them (see `text_lines`).
pub(crate) fn text_lines_exec(t: &str) -> (r: Vec<Vec<char>>)
    ensures
        char_vecs(r@) == text_lines(t@),
{
    let parts = split_newlines(t);
    proof {
        lemma_split_parts_len(t@);
    }
    let ghost ps = split_parts(t@);
    let n = parts.len();
    let mut out: Vec<Vec<char>> = Vec::new();
    let mut i: usize = 0;
    while i + 1 < n
        invariant
            n == parts@.len(),
            n >= 1,
            i + 1 <= n,
            char_vecs(parts@) == ps,
            out@.len() == i,
            char_vecs(out@) == Seq::new(i as nat, |k: int| strip_cr(ps[k])),
        decreases n - i,
    {
        let p = &parts[i];
        assert(p@ == ps[i as int]);
        let mut line: Vec<char> = p.clone();
        if line.len() > 0 && line[line.len() - 1] == '\r' {
            let _ = line.pop();
        }
        assert(line@ == strip_cr(ps[i as int]));
        let ghost prev = out@;
        let ghost lv = line@;
        out.push(line);
        assert(char_vecs(out@) =~= char_vecs(prev).push(lv));
        i += 1;
        assert(char_vecs(out@) =~= Seq::new(i as nat, |k: int| strip_cr(ps[k])));
    }
    let last = &parts[n - 1];
    assert(last@ == ps.last());
    if last.len() > 0 {
        let ghost prev = out@;
        out.push(last.clone());
        assert(char_vecs(out@) =~= char_vecs(prev).push(ps.last()));
    }
    out
}

} // verus!
