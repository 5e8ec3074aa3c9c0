//! Padding - CSS-style padding for renderables.
//!
//! Padding dimensions follow CSS conventions:
//! - 1 value: all sides equal
//! - 2 values: (vertical, horizontal) -> top/bottom, left/right
//! - 4 values: (top, right, bottom, left) -> individual sides
use vstd::prelude::*;
use crate::segment::{copy_line, lines_model, pad_seg, segs_model, spaces_segment, Segment, SegmentModel};
use crate::style::{Style, StyleModel};

verus! {

/// CSS-style padding dimensions.
#[derive(Debug, Clone, Copy, PartialEq, Eq, Default, Structural)]
pub struct PaddingDimensions {
    /// Top padding in cells.
    pub top: usize,
    /// Right padding in cells.
    pub right: usize,
    /// Bottom padding in cells.
    pub bottom: usize,
    /// Left padding in cells.
    pub left: usize,
}

impl PaddingDimensions {
    /// Create padding with all sides equal.
    pub fn all(n: usize) -> (p: Self)
        ensures
            p == (PaddingDimensions { top: n, right: n, bottom: n, left: n }),
    {
        PaddingDimensions { top: n, right: n, bottom: n, left: n }
    }

    /// Create padding with separate vertical and horizontal values.
    pub fn symmetric(vertical: usize, horizontal: usize) -> (p: Self)
        ensures
            p == (PaddingDimensions { top: vertical, right: horizontal, bottom: vertical, left: horizontal }),
    {
        PaddingDimensions { top: vertical, right: horizontal, bottom: vertical, left: horizontal }
    }

    /// Create padding with individual values for each side.
    pub fn new(top: usize, right: usize, bottom: usize, left: usize) -> (p: Self)
        ensures
            p == (PaddingDimensions { top, right, bottom, left }),
    {
        PaddingDimensions { top, right, bottom, left }
    }

    /// Create zero padding.
    pub fn zero() -> (p: Self)
        ensures
            p == (PaddingDimensions { top: 0, right: 0, bottom: 0, left: 0 }),
    {
        PaddingDimensions::all(0)
    }

    /// Total horizontal padding (left + right).
    pub fn horizontal(&self) -> (n: usize)
        requires
            self.left + self.right <= usize::MAX,
        ensures
            n == self.left + self.right,
    {
        self.left + self.right
    }

    /// Total vertical padding (top + bottom).
    pub fn vertical(&self) -> (n: usize)
        requires
            self.top + self.bottom <= usize::MAX,
        ensures
            n == self.top + self.bottom,
    {
        self.top + self.bottom
    }
}

impl From<usize> for PaddingDimensions {
    fn from(n: usize) -> (p: Self) {
        PaddingDimensions::all(n)
    }
}

impl vstd::std_specs::convert::FromSpecImpl<usize> for PaddingDimensions {
    open spec fn obeys_from_spec() -> bool {
        true
    }

    open spec fn from_spec(n: usize) -> Self {
        PaddingDimensions { top: n, right: n, bottom: n, left: n }
    }
}

impl From<(usize, usize)> for PaddingDimensions {
    fn from(v: (usize, usize)) -> (p: Self) {
        PaddingDimensions::symmetric(v.0, v.1)
    }
}

impl vstd::std_specs::convert::FromSpecImpl<(usize, usize)> for PaddingDimensions {
    open spec fn obeys_from_spec() -> bool {
        true
    }

    open spec fn from_spec(v: (usize, usize)) -> Self {
        PaddingDimensions { top: v.0, right: v.1, bottom: v.0, left: v.1 }
    }
}

impl From<(usize, usize, usize, usize)> for PaddingDimensions {
    fn from(v: (usize, usize, usize, usize)) -> (p: Self) {
        PaddingDimensions::new(v.0, v.1, v.2, v.3)
    }
}

impl vstd::std_specs::convert::FromSpecImpl<(usize, usize, usize, usize)> for PaddingDimensions {
    open spec fn obeys_from_spec() -> bool {
        true
    }

    open spec fn from_spec(v: (usize, usize, usize, usize)) -> Self {
        PaddingDimensions { top: v.0, right: v.1, bottom: v.2, left: v.3 }
    }
}

/// Create indentation padding (left-side only).
pub fn indent(level: usize) -> (p: PaddingDimensions)
    ensures
        p == (PaddingDimensions { top: 0, right: 0, bottom: 0, left: level }),
{
    PaddingDimensions::new(0, 0, 0, level)
}

/// A wrapper that adds padding around content.
#[derive(Debug)]
pub struct Padding {
    /// Lines of content (each line is a Vec of Segments).
    content_lines: Vec<Vec<Segment>>,
    /// Padding dimensions.
    pad: PaddingDimensions,
    /// Style for the padding (background fill).
    style: Style,
    /// Width to expand content to.
    width: usize,
}

/// The value of a padding wrapper.
pub struct PaddingModel {
    pub content_lines: Seq<Seq<SegmentModel>>,
    pub pad: PaddingDimensions,
    pub style: StyleModel,
    pub width: usize,
}

impl View for Padding {
    type V = PaddingModel;

    closed spec fn view(&self) -> PaddingModel {
        PaddingModel {
            content_lines: lines_model(self.content_lines@),
            pad: self.pad,
            style: self.style@,
            width: self.width,
        }
    }
}

/// A line between the left and right padding (each present when non-zero).
pub open spec fn framed(p: PaddingModel, middle: Seq<SegmentModel>) -> Seq<SegmentModel> {
    (if p.pad.left > 0 { seq![pad_seg(p.pad.left as nat, Some(p.style))] } else { Seq::empty() })
        + middle
        + (if p.pad.right > 0 { seq![pad_seg(p.pad.right as nat, Some(p.style))] } else { Seq::empty() })
}

/// A blank padding line: spaces across the inner width, framed.
pub open spec fn padding_blank(p: PaddingModel) -> Seq<SegmentModel> {
    let inner = if p.width > p.pad.left + p.pad.right { (p.width - p.pad.left - p.pad.right) as nat } else { 0 };
    framed(p, seq![pad_seg(inner, Some(p.style))])
}

impl Padding {
    /// Create a new Padding wrapper with a plain padding style.
    pub fn new(content_lines: Vec<Vec<Segment>>, pad: PaddingDimensions, width: usize) -> (p: Self)
        ensures
            p@ == (PaddingModel {
                content_lines: lines_model(content_lines@),
                pad,
                style: crate::style::empty_style_model(false),
                width,
            }),
    {
        Padding { content_lines, pad, style: Style::new(), width }
    }

    /// Set the padding style.
    pub fn style(self, style: Style) -> (p: Self)
        ensures
            p@ == (PaddingModel { style: style@, ..self@ }),
    {
        Padding { style, ..self }
    }

    /// A line of segments with the left and right padding around `middle`.
    fn frame(&self, middle: Vec<Segment>) -> (r: Vec<Segment>)
        ensures
            segs_model(r@) == framed(self@, segs_model(middle@)),
    {
        let mut line: Vec<Segment> = Vec::new();
        if self.pad.left > 0 {
            let s = spaces_segment(self.pad.left, Some(self.style.clone()));
            line.push(s);
        }
        let ghost before = segs_model(line@);
        let mut i: usize = 0;
        while i < middle.len()
            invariant
                i <= middle@.len(),
                segs_model(line@) == before + segs_model(middle@.take(i as int)),
            decreases middle.len() - i,
        {
            let ghost prev = line@;
            let s = middle[i].clone();
            assert(s@ == middle@[i as int]@);
            line.push(s);
            proof {
                assert(segs_model(line@) =~= segs_model(prev).push(s@));
                assert(segs_model(middle@.take(i + 1)) =~= segs_model(middle@.take(i as int)).push(s@));
            }
            i += 1;
        }
        assert(middle@.take(middle@.len() as int) =~= middle@);
        if self.pad.right > 0 {
            let ghost prev = line@;
            let s = spaces_segment(self.pad.right, Some(self.style.clone()));
            line.push(s);
            assert(segs_model(line@) =~= segs_model(prev).push(s@));
        }
        assert(segs_model(line@) =~= framed(self@, segs_model(middle@)));
        line
    }

    /// A blank padding line.
    fn blank_line(&self) -> (r: Vec<Segment>)
        ensures
            segs_model(r@) == padding_blank(self@),
    {
        let horizontal = if self.pad.left <= usize::MAX - self.pad.right { self.pad.left + self.pad.right } else { usize::MAX };
        let inner = if self.width > horizontal { self.width - horizontal } else { 0 };
        let mut middle: Vec<Segment> = Vec::new();
        let s = spaces_segment(inner, Some(self.style.clone()));
        middle.push(s);
        assert(segs_model(middle@) =~= seq![pad_seg(inner as nat, Some(self.style@))]);
        self.frame(middle)
    }

    /// Render with padding applied: `top` blank lines, each content line
    /// between the left and right padding, then `bottom` blank lines.
    pub fn render(self) -> (r: Vec<Vec<Segment>>)
        ensures
            r@.len() == self@.pad.top + self@.content_lines.len() + self@.pad.bottom,
            forall|k: int| 0 <= k < self@.pad.top ==> lines_model(r@)[k] == padding_blank(self@),
            forall|k: int| 0 <= k < self@.content_lines.len() ==> lines_model(r@)[self@.pad.top + k]
                == framed(self@, self@.content_lines[k]),
            forall|k: int| self@.pad.top + self@.content_lines.len() <= k < r@.len() ==> lines_model(r@)[k]
                == padding_blank(self@),
    {
        let mut result: Vec<Vec<Segment>> = Vec::new();
        let mut t: usize = 0;
        while t < self.pad.top
            invariant
                t <= self.pad.top,
                result@.len() == t,
                forall|k: int| 0 <= k < t ==> lines_model(result@)[k] == padding_blank(self@),
            decreases self.pad.top - t,
        {
            let b = self.blank_line();
            let ghost prev = result@;
            result.push(b);
            assert(lines_model(result@) =~= lines_model(prev).push(segs_model(b@)));
            t += 1;
        }
        let n = self.content_lines.len();
        let mut i: usize = 0;
        while i < n
            invariant
                i <= n,
                n == self.content_lines@.len(),
                result@.len() == self.pad.top + i,
                forall|k: int| 0 <= k < self.pad.top ==> lines_model(result@)[k] == padding_blank(self@),
                forall|k: int| 0 <= k < i ==> lines_model(result@)[self.pad.top + k]
                    == framed(self@, self@.content_lines[k]),
            decreases n - i,
        {
            let middle = copy_line(&self.content_lines[i]);
            let line = self.frame(middle);
            let ghost prev = result@;
            result.push(line);
            assert(lines_model(result@) =~= lines_model(prev).push(segs_model(line@)));
            assert(self@.content_lines[i as int] == segs_model(self.content_lines@[i as int]@));
            i += 1;
        }
        let mut b: usize = 0;
        while b < self.pad.bottom
            invariant
                b <= self.pad.bottom,
                result@.len() == self.pad.top + n + b,
                n == self.content_lines@.len(),
                forall|k: int| 0 <= k < self.pad.top ==> lines_model(result@)[k] == padding_blank(self@),
                forall|k: int| 0 <= k < n ==> lines_model(result@)[self.pad.top + k]
                    == framed(self@, self@.content_lines[k]),
                forall|k: int| self.pad.top + n <= k < result@.len() ==> lines_model(result@)[k]
                    == padding_blank(self@),
            decreases self.pad.bottom - b,
        {
            let bl = self.blank_line();
            let ghost prev = result@;
            result.push(bl);
            assert(lines_model(result@) =~= lines_model(prev).push(segs_model(bl@)));
            b += 1;
        }
        result
    }
}

/// Law: a blank padding line spans the padding's width, where the width
/// holds the left and right padding (a space being one cell wide).
pub proof fn law_blank_line_width(p: PaddingModel)
    requires
        p.width >= p.pad.left + p.pad.right,
        crate::cells::char_cells(' ') == 1,
    ensures
        crate::segment::line_cells(padding_blank(p)) == p.width,
{
    let l = p.pad.left as nat;
    let r = p.pad.right as nat;
    let inner = (p.width - p.pad.left - p.pad.right) as nat;
    crate::cells::lemma_cells_repeat(' ', l);
    crate::cells::lemma_cells_repeat(' ', r);
    crate::cells::lemma_cells_repeat(' ', inner);
    let left: Seq<SegmentModel> = if p.pad.left > 0 { seq![pad_seg(l, Some(p.style))] } else { Seq::empty() };
    let mid: Seq<SegmentModel> = seq![pad_seg(inner, Some(p.style))];
    let b = left + mid;
    assert(crate::segment::line_cells(left) == if p.pad.left > 0 { l } else { 0 }) by {
        if p.pad.left > 0 {
            crate::segment::lemma_line_cells_push(Seq::empty(), pad_seg(l, Some(p.style)));
            assert(left =~= Seq::<SegmentModel>::empty().push(pad_seg(l, Some(p.style))));
        }
    }
    assert(b =~= left.push(pad_seg(inner, Some(p.style))));
    crate::segment::lemma_line_cells_push(left, pad_seg(inner, Some(p.style)));
    if p.pad.right > 0 {
        assert(padding_blank(p) =~= b.push(pad_seg(r, Some(p.style))));
        crate::segment::lemma_line_cells_push(b, pad_seg(r, Some(p.style)));
    } else {
        assert(padding_blank(p) =~= b);
    }
}

} // verus!
