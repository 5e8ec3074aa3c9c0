//! Printing with options: the segments a console prints for content under
//! a set of print options.
use vstd::prelude::*;
use vstd::string::StrSliceExecFns;
use crate::cells::{cell_len_saturating, cells, fit_count, fit_prefix};
use crate::console::{Console, ConsoleModel, PrintOptions};
use crate::segment::{char_vecs, plain_model, push_seg, segs_model, text_lines, text_lines_exec, Segment, SegmentModel};
use crate::style::{combine_model, empty_style_model, opt_style_model, Style, StyleModel};
use crate::text::{text_segs, truncated, JustifyMethod, OverflowMethod, Text};
use crate::text_ops::{push_repeat, push_str, spaces, string_from_chars};

verus! {

/// How many leading characters make the next piece of a folded line: those
/// that fit in `w` cells, or one where none does.
pub open spec fn piece_len(l: Seq<char>, w: nat) -> nat {
    let k = fit_count(l, w);
    if 1 <= k && k <= l.len() { k } else { 1 }
}

/// A line folded into pieces at most `w` cells wide (a character wider than
/// `w` stands alone); a line whose characters all fit, or a zero width,
/// leaves it whole.
pub open spec fn fold_line(l: Seq<char>, w: nat) -> Seq<Seq<char>>
    decreases l.len(),
{
    if l.len() == 0 || fit_count(l, w) == l.len() || w == 0 {
        seq![l]
    } else {
        seq![l.take(piece_len(l, w) as int)] + fold_line(l.skip(piece_len(l, w) as int), w)
    }
}

/// Lines folded at `w` cells, one after another.
pub open spec fn fold_lines(ls: Seq<Seq<char>>, w: nat) -> Seq<Seq<char>>
    decreases ls.len(),
{
    if ls.len() == 0 { Seq::empty() } else { fold_lines(ls.drop_last(), w) + fold_line(ls.last(), w) }
}

/// A line fitted to `w` cells: without wrapping, a longer line is cut by the
/// overflow method; a shorter one is padded with spaces on both sides
/// (centered, the right side taking the odd cell), on the left (right
/// justified) or on the right (full); left justified lines stay as they are.
pub open spec fn fitted_line(l: Seq<char>, w: nat, no_wrap: bool, overflow: OverflowMethod, j: JustifyMethod) -> Seq<char> {
    let t = if no_wrap && cells(l) > w { truncated(l, w, overflow) } else { l };
    let c = cells(t);
    if c < w {
        let gap = (w - c) as nat;
        match j {
            JustifyMethod::Center => spaces(gap / 2) + t + spaces((gap - gap / 2) as nat),
            JustifyMethod::Right => spaces(gap) + t,
            JustifyMethod::Full => t + spaces(gap),
            _ => t,
        }
    } else {
        t
    }
}

/// An unstyled segment of the end string, or none for an empty one.
pub open spec fn end_segs(end: Seq<char>) -> Seq<SegmentModel> {
    if end.len() == 0 { Seq::empty() } else { seq![plain_model(end, None)] }
}

/// The print settings that shape lines: the width, whether lines wrap, the
/// overflow method and the justification.
pub struct LineShape {
    pub width: nat,
    pub no_wrap: bool,
    pub overflow: OverflowMethod,
    pub justify: JustifyMethod,
}

/// The first `k` lines rendered: each fitted (see `fitted_line`) in the null
/// style, ending in a newline, the last in `end`.
pub open spec fn render_lines(ls: Seq<Seq<char>>, k: nat, s: LineShape, end: Seq<char>) -> Seq<SegmentModel>
    decreases k,
{
    if k == 0 || k > ls.len() {
        Seq::empty()
    } else {
        render_lines(ls, (k - 1) as nat, s, end) + text_segs(
            fitted_line(ls[k - 1], s.width, s.no_wrap, s.overflow, s.justify),
            empty_style_model(true),
        ) + end_segs(if k == ls.len() { end } else { seq!['\n'] })
    }
}

/// A segment under a print style: a text segment's style is combined under
/// it (or becomes it); control segments are left alone.
pub open spec fn styled_seg(s: SegmentModel, st: Option<StyleModel>) -> SegmentModel {
    match st {
        None => s,
        Some(x) => if s.control is Some {
            s
        } else {
            SegmentModel {
                style: Some(
                    match s.style {
                        Some(y) => combine_model(x, y),
                        None => x,
                    },
                ),
                ..s
            }
        },
    }
}

/// The width content is printed in: the set width; else the console's width
/// where justification, overflow, wrapping, cropping or soft wrapping is
/// set; else none.
pub open spec fn print_width(o: PrintOptions, console_width: nat) -> Option<nat> {
    match o.width {
        Some(w) => Some(w as nat),
        None => if o.justify is Some || o.overflow is Some || o.no_wrap is Some || o.crop || o.soft_wrap {
            Some(console_width)
        } else {
            None
        },
    }
}

/// The shape of printed lines: cropping overrides the overflow method, which
/// is folding unless set; the default justification is left.
pub open spec fn line_shape(o: PrintOptions, w: nat) -> LineShape {
    LineShape {
        width: w,
        no_wrap: o.no_wrap == Some(true),
        overflow: if o.crop {
            OverflowMethod::Crop
        } else {
            match o.overflow {
                Some(x) => x,
                None => OverflowMethod::Fold,
            }
        },
        justify: match o.justify {
            Some(JustifyMethod::Default) | None => JustifyMethod::Left,
            Some(x) => x,
        },
    }
}

/// The segments printed for content under print options, with the console
/// `console_width` cells wide: the content as plain text (markup is not
/// read here), then the end string unless there is to be no newline; with a
/// width (see `print_width`), its lines are wrapped at the width unless
/// wrapping is off and each is fitted to it (see `render_lines`); every
/// segment finally takes the print style (see `styled_seg`).
pub open spec fn print_options_spec(content: Seq<char>, o: PrintOptions, console_width: nat) -> Seq<SegmentModel> {
    let end = if o.no_newline { Seq::empty() } else { o.end@ };
    let raw = match print_width(o, console_width) {
        None => text_segs(content, empty_style_model(true)) + end_segs(end),
        Some(w) => {
            let shape = line_shape(o, w);
            let ls = if shape.no_wrap { text_lines(content) } else { fold_lines(text_lines(content), w) };
            render_lines(ls, ls.len(), shape, end)
        },
    };
    raw.map_values(|s: SegmentModel| styled_seg(s, opt_style_model(o.style)))
}

/// The lines of a content are each countable in cells.
pub open spec fn lines_countable(content: Seq<char>) -> bool {
    forall|i: int| 0 <= i < text_lines(content).len() ==> cells(#[trigger] text_lines(content)[i]) <= usize::MAX
}

/// The characters of `v` from `from` to `to`.
fn chars_between(v: &Vec<char>, from: usize, to: usize) -> (r: Vec<char>)
    requires
        from <= to <= v@.len(),
    ensures
        r@ == v@.subrange(from as int, to as int),
{
    let mut r: Vec<char> = Vec::new();
    let mut i = from;
    while i < to
        invariant
            from <= i <= to,
            to <= v@.len(),
            r@ == v@.subrange(from as int, i as int),
        decreases to - i,
    {
        r.push(v[i]);
        assert(r@ =~= v@.subrange(from as int, i + 1));
        i += 1;
    }
    r
}

/// A line folded at `w` cells (see `fold_line`), appended to `out`.
fn push_folded(out: &mut Vec<Vec<char>>, v: &Vec<char>, w: usize)
    ensures
        char_vecs(final(out)@) == char_vecs(old(out)@) + fold_line(v@, w as nat),
{
    let ghost start = char_vecs(out@);
    let mut rest = chars_between(v, 0, v.len());
    assert(rest@ =~= v@);
    loop
        invariant
            start == char_vecs(old(out)@),
            start + fold_line(v@, w as nat) == char_vecs(out@) + fold_line(rest@, w as nat),
        decreases rest@.len(),
    {
        let (k, _) = fit_prefix(&rest, w);
        if rest.len() == 0 || k == rest.len() || w == 0 {
            let ghost before = char_vecs(out@);
            let ghost rv = rest@;
            out.push(rest);
            assert(char_vecs(out@) =~= before + seq![rv]);
            assert(fold_line(rv, w as nat) == seq![rv]);
            assert(start + fold_line(v@, w as nat) =~= char_vecs(out@));
            return;
        }
        let k1 = if k >= 1 { k } else { 1 };
        assert(k1 == piece_len(rest@, w as nat));
        let piece = chars_between(&rest, 0, k1);
        let next = chars_between(&rest, k1, rest.len());
        let ghost before = char_vecs(out@);
        let ghost rv = rest@;
        assert(piece@ == rv.take(k1 as int));
        assert(next@ == rv.skip(k1 as int));
        out.push(piece);
        assert(char_vecs(out@) =~= before + seq![piece@]);
        assert(fold_line(rv, w as nat) == seq![rv.take(k1 as int)] + fold_line(rv.skip(k1 as int), w as nat));
        rest = next;
        assert(start + fold_line(v@, w as nat) =~= char_vecs(out@) + fold_line(rest@, w as nat));
    }
}

/// Lines folded at `w` cells (see `fold_lines`).
fn fold_all(lines: &Vec<Vec<char>>, w: usize) -> (r: Vec<Vec<char>>)
    ensures
        char_vecs(r@) == fold_lines(char_vecs(lines@), w as nat),
{
    let ghost ls = char_vecs(lines@);
    let mut out: Vec<Vec<char>> = Vec::new();
    let mut i: usize = 0;
    assert(char_vecs(out@) =~= fold_lines(ls.take(0), w as nat));
    while i < lines.len()
        invariant
            i <= lines@.len(),
            ls == char_vecs(lines@),
            char_vecs(out@) == fold_lines(ls.take(i as int), w as nat),
        decreases lines.len() - i,
    {
        push_folded(&mut out, &lines[i], w);
        assert(ls.take(i + 1).drop_last() =~= ls.take(i as int));
        assert(ls.take(i + 1).last() == lines@[i as int]@);
        i += 1;
    }
    assert(ls.take(ls.len() as int) =~= ls);
    out
}

/// A line fitted to a shape (see `fitted_line`).
fn fit_line(v: &Vec<char>, s: &ShapeExec) -> (r: String)
    requires
        s.no_wrap ==> cells(v@) <= usize::MAX,
    ensures
        r@ == fitted_line(v@, s.width as nat, s.no_wrap, s.overflow, s.justify),
{
    let line = string_from_chars(v);
    let mut text = Text::new(line.as_str());
    if s.no_wrap {
        let c = crate::cells::cell_len(line.as_str());
        if c > s.width {
            text.truncate(s.width, s.overflow);
        }
    }
    let t = text.plain();
    let c = cell_len_saturating(t);
    let ghost tv = t@;
    assert(tv == if s.no_wrap && cells(v@) > s.width { truncated(v@, s.width as nat, s.overflow) } else { v@ });
    let mut out = String::new();
    if c < s.width {
        let gap = s.width - c;
        match s.justify {
            JustifyMethod::Center => {
                push_repeat(&mut out, ' ', gap / 2);
                push_str(&mut out, t);
                push_repeat(&mut out, ' ', gap - gap / 2);
            },
            JustifyMethod::Right => {
                push_repeat(&mut out, ' ', gap);
                push_str(&mut out, t);
            },
            JustifyMethod::Full => {
                push_str(&mut out, t);
                push_repeat(&mut out, ' ', gap);
            },
            _ => {
                push_str(&mut out, t);
            },
        }
    } else {
        push_str(&mut out, t);
    }
    assert(out@ =~= fitted_line(v@, s.width as nat, s.no_wrap, s.overflow, s.justify));
    out
}

/// The shape of printed lines, as values (see `LineShape`).
struct ShapeExec {
    width: usize,
    no_wrap: bool,
    overflow: OverflowMethod,
    justify: JustifyMethod,
}

/// The shape a value shape stands for.
spec fn shape_of(s: ShapeExec) -> LineShape {
    LineShape { width: s.width as nat, no_wrap: s.no_wrap, overflow: s.overflow, justify: s.justify }
}

/// A segment under a print style (see `styled_seg`).
fn style_segment(seg: Segment, st: &Option<Style>) -> (r: Segment)
    ensures
        r@ == styled_seg(seg@, opt_style_model(*st)),
{
    match st {
        None => seg,
        Some(x) => {
            if seg.control.is_some() {
                seg
            } else {
                let style = match &seg.style {
                    Some(y) => x.combine(y),
                    None => x.clone(),
                };
                Segment { style: Some(style), ..seg }
            }
        },
    }
}

/// Segments under a print style (see `styled_seg`).
fn style_segments(raw: &Vec<Segment>, st: &Option<Style>) -> (r: Vec<Segment>)
    ensures
        segs_model(r@) == segs_model(raw@).map_values(|s: SegmentModel| styled_seg(s, opt_style_model(*st))),
{
    let ghost m = segs_model(raw@);
    let mut out: Vec<Segment> = Vec::new();
    let mut i: usize = 0;
    while i < raw.len()
        invariant
            i <= raw@.len(),
            m == segs_model(raw@),
            segs_model(out@) == m.take(i as int).map_values(|s: SegmentModel| styled_seg(s, opt_style_model(*st))),
        decreases raw.len() - i,
    {
        let seg = style_segment(raw[i].clone(), st);
        let ghost prev = out@;
        out.push(seg);
        assert(m[i as int] == raw@[i as int]@);
        assert(segs_model(out@) =~= segs_model(prev).push(seg@));
        assert(m.take(i + 1) =~= m.take(i as int).push(m[i as int]));
        assert(segs_model(out@) =~= m.take(i + 1).map_values(|s: SegmentModel| styled_seg(s, opt_style_model(*st))));
        i += 1;
    }
    assert(m.take(m.len() as int) =~= m);
    out
}

/// The segments of fitted lines (see `render_lines`).
fn render_fitted(ls: &Vec<Vec<char>>, s: &ShapeExec, end: &str) -> (r: Vec<Segment>)
    requires
        s.no_wrap ==> forall|i: int| 0 <= i < ls@.len() ==> cells(#[trigger] ls@[i]@) <= usize::MAX,
    ensures
        segs_model(r@) == render_lines(char_vecs(ls@), ls@.len(), shape_of(*s), end@),
{
    let ghost lv = char_vecs(ls@);
    let mut out: Vec<Segment> = Vec::new();
    let mut i: usize = 0;
    while i < ls.len()
        invariant
            i <= ls@.len(),
            lv == char_vecs(ls@),
            s.no_wrap ==> forall|j: int| 0 <= j < ls@.len() ==> cells(#[trigger] ls@[j]@) <= usize::MAX,
            segs_model(out@) == render_lines(lv, i as nat, shape_of(*s), end@),
        decreases ls.len() - i,
    {
        assert(lv[i as int] == ls@[i as int]@);
        let t = fit_line(&ls[i], s);
        let ghost prev = segs_model(out@);
        let text = Text::new(t.as_str());
        let body = text.render();
        let ghost bm = segs_model(body@);
        assert(bm == text_segs(t@, empty_style_model(true)));
        crate::segment::push_segs(&mut out, body);
        let ghost mid = segs_model(out@);
        assert(mid == prev + bm);
        if i + 1 == ls.len() {
            if end.unicode_len() > 0 {
                push_seg(&mut out, Segment::new(end, None));
            }
            assert(segs_model(out@) =~= mid + end_segs(end@));
        } else {
            proof {
                reveal_strlit("\n");
                assert("\n"@ =~= seq!['\n']);
            }
            push_seg(&mut out, Segment::new("\n", None));
            assert(segs_model(out@) =~= mid + end_segs(seq!['\n']));
        }
        assert(render_lines(lv, (i + 1) as nat, shape_of(*s), end@) == render_lines(lv, i as nat, shape_of(*s), end@)
            + text_segs(fitted_line(lv[i as int], s.width as nat, s.no_wrap, s.overflow, s.justify), empty_style_model(true))
            + end_segs(if i + 1 == lv.len() { end@ } else { seq!['\n'] }));
        assert(segs_model(out@) =~= render_lines(lv, (i + 1) as nat, shape_of(*s), end@));
        i += 1;
    }
    out
}

impl Console {
    /// The segments printed for content under print options with the
    /// console `console_width` cells wide (see `print_options_spec`).
    pub fn render_with_options_at(&self, content: &str, options: &PrintOptions, console_width: usize) -> (r: Vec<
        Segment,
    >)
        requires
            options.no_wrap == Some(true) ==> lines_countable(content@),
        ensures
            segs_model(r@) == print_options_spec(content@, *options, console_width as nat),
    {
        let no_wrap = match options.no_wrap {
            Some(b) => b,
            None => false,
        };
        let width: Option<usize> = match options.width {
            Some(w) => Some(w),
            None => if options.justify.is_some() || options.overflow.is_some() || options.no_wrap.is_some()
                || options.crop || options.soft_wrap {
                Some(console_width)
            } else {
                None
            },
        };
        let raw: Vec<Segment> = match width {
            None => {
                let text = Text::new(content);
                let mut v = text.render();
                let ghost vm = segs_model(v@);
                if !options.no_newline && options.end.as_str().unicode_len() > 0 {
                    push_seg(&mut v, Segment::new(options.end.as_str(), None));
                }
                assert(segs_model(v@) =~= vm + end_segs(if options.no_newline { Seq::empty() } else { options.end@ }));
                v
            },
            Some(w) => {
                let overflow = if options.crop {
                    OverflowMethod::Crop
                } else {
                    match options.overflow {
                        Some(x) => x,
                        None => OverflowMethod::Fold,
                    }
                };
                let justify = match options.justify {
                    Some(JustifyMethod::Default) | None => JustifyMethod::Left,
                    Some(x) => x,
                };
                let shape = ShapeExec { width: w, no_wrap, overflow, justify };
                assert(shape_of(shape) == line_shape(*options, w as nat));
                let lines = text_lines_exec(content);
                proof {
                    if no_wrap {
                        assert forall|i: int| 0 <= i < lines@.len() implies cells(#[trigger] lines@[i]@) <= usize::MAX by {
                            assert(lines@[i]@ == char_vecs(lines@)[i]);
                            assert(text_lines(content@)[i] == char_vecs(lines@)[i]);
                        }
                    }
                }
                let ls = if no_wrap { lines } else { fold_all(&lines, w) };
                assert(char_vecs(ls@) == if no_wrap { text_lines(content@) } else { fold_lines(text_lines(content@), w as nat) });
                if options.no_newline {
                    proof {
                        reveal_strlit("");
                        assert(""@ =~= Seq::<char>::empty());
                    }
                    render_fitted(&ls, &shape, "")
                } else {
                    render_fitted(&ls, &shape, options.end.as_str())
                }
            },
        };
        style_segments(&raw, &options.style)
    }

    /// The segments printed for content under print options (see
    /// `render_with_options_at`), at the console's width where one is needed.
    pub fn render_with_options(&self, content: &str, options: &PrintOptions) -> (r: Vec<Segment>)
        requires
            options.no_wrap == Some(true) ==> lines_countable(content@),
        ensures
            self@.width matches Some(x) ==> segs_model(r@) == print_options_spec(content@, *options, x as nat),
            exists|w: usize| #[trigger] print_options_spec(content@, *options, w as nat) == segs_model(r@),
    {
        let w = if print_width_needed(options) { self.width() } else { 0 };
        self.render_with_options_at(content, options, w)
    }
}

/// Whether printing needs the console's width (see `print_width`).
fn print_width_needed(o: &PrintOptions) -> (r: bool)
    ensures
        r == (o.width is None && (o.justify is Some || o.overflow is Some || o.no_wrap is Some || o.crop
            || o.soft_wrap)),
{
    o.width.is_none() && (o.justify.is_some() || o.overflow.is_some() || o.no_wrap.is_some() || o.crop
        || o.soft_wrap)
}

} // verus!
