//! Plain text with a style, and the justification and overflow settings that
//! renderables apply to it.
use vstd::prelude::*;
use crate::cells::{
    cell_len, cells, get_character_cell_size, lemma_cells_concat, lemma_cells_repeat, set_cell_size,
    set_cell_size_spec,
};
use crate::segment::{plain_model, Segment, SegmentModel};
use crate::style::{Style, StyleModel};
use crate::text_ops::{owned, push_str, repeat_char, repeat_spec};

verus! {

/// How text is justified within its width.
#[derive(Debug, Clone, Copy, PartialEq, Eq, Structural)]
pub enum JustifyMethod {
    /// Left for text, as set by the renderable otherwise.
    Default,
    /// Flush left.
    Left,
    /// Centered.
    Center,
    /// Flush right.
    Right,
    /// Stretched to both edges.
    Full,
}

/// What happens to text wider than its width.
#[derive(Debug, Clone, Copy, PartialEq, Eq, Structural)]
pub enum OverflowMethod {
    /// Continue on the next line.
    Fold,
    /// Cut off.
    Crop,
    /// Cut off with an ellipsis.
    Ellipsis,
    /// Left as it is.
    Visible,
}

/// A run of plain text with one style.
#[derive(Debug, PartialEq, Eq)]
pub struct Text {
    /// The characters.
    plain: String,
    /// The style of the whole text.
    style: Style,
}

/// The value of a text.
pub struct TextModel {
    pub plain: Seq<char>,
    pub style: StyleModel,
}

impl View for Text {
    type V = TextModel;

    closed spec fn view(&self) -> TextModel {
        TextModel { plain: self.plain@, style: self.style@ }
    }
}

impl Clone for Text {
    fn clone(&self) -> (t: Self)
        ensures
            t@ == self@,
    {
        Text { plain: self.plain.clone(), style: self.style.clone() }
    }
}

/// Text cut to `max` cells with `...` at the end where it is wider.
pub open spec fn ellipsis_spec(t: Seq<char>, max: nat) -> Seq<char> {
    if cells(t) <= max {
        t
    } else if max >= 3 {
        set_cell_size_spec(t, (max - 3) as nat) + seq!['.', '.', '.']
    } else {
        repeat_spec('.', max)
    }
}

/// Text cut to `max` cells with `...` at the end where it is wider; the
/// result is then exactly `max` cells wide.
pub(crate) fn ellipsis(t: &str, max: usize) -> (r: String)
    requires
        cells(t@) <= usize::MAX,
    ensures
        r@ == ellipsis_spec(t@, max as nat),
        cells(t@) > max ==> cells(r@) == max,
{
    let w = cell_len(t);
    if w <= max {
        return owned(t);
    }
    let dot = get_character_cell_size('.');
    assert(('.' as u32) == 46);
    assert(dot == 1);
    if max >= 3 {
        let mut r = set_cell_size(t, max - 3);
        let ghost head = r@;
        push_str(&mut r, "...");
        proof {
            reveal_strlit("...");
            assert("..."@ =~= seq!['.', '.', '.']);
            assert(repeat_spec('.', 3) =~= seq!['.', '.', '.']);
            lemma_cells_repeat('.', 3);
            lemma_cells_concat(head, seq!['.', '.', '.']);
        }
        r
    } else {
        proof {
            lemma_cells_repeat('.', max as nat);
        }
        repeat_char('.', max)
    }
}

/// The characters of text cut to `width` cells by an overflow method:
/// unchanged where they fit or where overflow is visible; ending in `...` for
/// an ellipsis; otherwise cropped to exactly `width` cells.
pub open spec fn truncated(plain: Seq<char>, width: nat, overflow: OverflowMethod) -> Seq<char> {
    if cells(plain) <= width {
        plain
    } else {
        match overflow {
            OverflowMethod::Ellipsis => ellipsis_spec(plain, width),
            OverflowMethod::Visible => plain,
            _ => set_cell_size_spec(plain, width),
        }
    }
}

/// The segments of text in a style: one segment, or none for empty text.
pub open spec fn text_segs(plain: Seq<char>, style: StyleModel) -> Seq<SegmentModel> {
    if plain.len() == 0 { Seq::empty() } else { seq![plain_model(plain, Some(style))] }
}

impl Text {
    /// Text with the given characters and the null style.
    pub fn new(plain: &str) -> (t: Self)
        ensures
            t@ == (TextModel { plain: plain@, style: crate::style::empty_style_model(true) }),
    {
        Text { plain: owned(plain), style: Style::null() }
    }

    /// Empty text with the null style.
    pub fn empty() -> (t: Self)
        ensures
            t@ == (TextModel { plain: Seq::empty(), style: crate::style::empty_style_model(true) }),
    {
        Text { plain: String::new(), style: Style::null() }
    }

    /// Text with the given characters and style.
    pub fn styled(plain: &str, style: Style) -> (t: Self)
        ensures
            t@ == (TextModel { plain: plain@, style: style@ }),
    {
        Text { plain: owned(plain), style }
    }

    /// The characters of the text.
    pub fn plain(&self) -> (s: &str)
        ensures
            s@ == self@.plain,
    {
        self.plain.as_str()
    }

    /// The style of the text.
    pub fn style(&self) -> (s: &Style)
        ensures
            s@ == self@.style,
    {
        &self.style
    }

    /// The cell width of the text.
    pub fn cell_len(&self) -> (n: usize)
        requires
            cells(self@.plain) <= usize::MAX,
        ensures
            n == cells(self@.plain),
    {
        cell_len(self.plain.as_str())
    }

    /// Replace the style of the whole text.
    pub fn set_style(&mut self, style: Style)
        ensures
            final(self)@ == (TextModel { plain: old(self)@.plain, style: style@ }),
    {
        self.style = style;
    }

    /// Cut the text to `max_width` cells (see `truncated`), keeping its style.
    pub fn truncate(&mut self, max_width: usize, overflow: OverflowMethod)
        requires
            cells(old(self)@.plain) <= usize::MAX,
        ensures
            final(self)@ == (TextModel {
                plain: truncated(old(self)@.plain, max_width as nat, overflow),
                style: old(self)@.style,
            }),
            cells(final(self)@.plain) <= usize::MAX,
            cells(old(self)@.plain) > max_width && overflow != OverflowMethod::Visible
                ==> cells(final(self)@.plain) == max_width,
    {
        let w = cell_len(self.plain.as_str());
        if w <= max_width {
            return;
        }
        match overflow {
            OverflowMethod::Ellipsis => {
                self.plain = ellipsis(self.plain.as_str(), max_width);
            },
            OverflowMethod::Visible => {},
            _ => {
                self.plain = set_cell_size(self.plain.as_str(), max_width);
            },
        }
    }

    /// The text as segments (see `text_segs`).
    pub fn render(&self) -> (r: Vec<Segment>)
        ensures
            crate::segment::segs_model(r@) == text_segs(self@.plain, self@.style),
    {
        let mut v: Vec<Segment> = Vec::new();
        if !self.plain.as_str().is_empty() {
            v.push(Segment::styled(self.plain.as_str(), self.style.clone()));
            assert(crate::segment::segs_model(v@) =~= text_segs(self@.plain, self@.style));
        } else {
            assert(crate::segment::segs_model(v@) =~= text_segs(self@.plain, self@.style));
        }
        v
    }
}

} // verus!
