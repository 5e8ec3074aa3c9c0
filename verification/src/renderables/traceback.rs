//! Traceback - a call stack shown in a panel, each frame with the source
//! lines around the failing line, followed by the error.
use vstd::prelude::*;
use crate::box_chars::BoxChars;
use crate::cells::cells;
use crate::renderables::panel::{default_panel, panel_ok, panel_spec, rounded_box, Panel, PanelModel};
use crate::renderables::rule::newline_seg;
use crate::renderables::table::{max_nat, min_nat, sat_sub};
use crate::segment::{
    lines_model, plain_model, push_seg, segs_model, text_lines, text_lines_exec, char_vecs, Segment,
    SegmentModel,
};
use crate::strings::{std_trim_start, trim_start};
use crate::text::TextModel;
use crate::text_ops::{
    chars_of, contains_str, decimal, decimal_string, has_substring, owned, push_char, push_decimal,
    push_repeat, push_str, spaces, starts_with_at, string_from_range,
};

verus! {

/// One frame of a call stack.
#[derive(Debug, Clone, PartialEq, Eq)]
pub struct TracebackFrame {
    /// The source file, where known.
    pub filename: Option<String>,
    /// The function name.
    pub name: String,
    /// The line number.
    pub line: usize,
    /// Source lines around the frame's line, where given.
    pub source_context: Option<String>,
    /// The line number of the first line of `source_context` (at least 1).
    pub source_first_line: usize,
}

impl TracebackFrame {
    /// A frame of a function at a line, with no file or source.
    pub fn new(name: &str, line: usize) -> (f: Self)
        ensures
            f.name@ == name@,
            f.line == line,
            f.filename is None,
            f.source_context is None,
            f.source_first_line == 1,
    {
        TracebackFrame { filename: None, name: owned(name), line, source_context: None, source_first_line: 1 }
    }

    /// Set the source file.
    pub fn filename(self, filename: &str) -> (f: Self)
        ensures
            f.filename matches Some(n) && n@ == filename@,
            f.name == self.name,
            f.line == self.line,
            f.source_context == self.source_context,
            f.source_first_line == self.source_first_line,
    {
        TracebackFrame { filename: Some(owned(filename)), ..self }
    }

    /// Give the source lines around the frame, the first of them numbered
    /// `first_line` (at least 1).
    pub fn source_context(self, source: &str, first_line: usize) -> (f: Self)
        ensures
            f.source_context matches Some(s) && s@ == source@,
            f.source_first_line == if first_line > 1 { first_line } else { 1 },
            f.name == self.name,
            f.line == self.line,
            f.filename == self.filename,
    {
        TracebackFrame {
            source_context: Some(owned(source)),
            source_first_line: if first_line > 1 { first_line } else { 1 },
            ..self
        }
    }
}

/// A call stack and the error that ended it.
#[derive(Debug, Clone, PartialEq, Eq)]
pub struct Traceback {
    /// The frames, most recent call last.
    pub frames: Vec<TracebackFrame>,
    /// The kind of error.
    pub exception_type: String,
    /// The error message.
    pub exception_message: String,
    /// The panel title.
    pub title: String,
    /// How many source lines to show on each side of a frame's line.
    pub extra_lines: usize,
}

/// An unstyled segment.
pub open spec fn plain_seg(t: Seq<char>) -> SegmentModel {
    plain_model(t, None)
}

/// The header line of a frame with source: the file, line and function, or
/// the function and line where the file is not known.
pub open spec fn location_line(f: TracebackFrame) -> Seq<char> {
    match f.filename {
        Some(n) => n@ + seq![':'] + decimal(f.line as nat) + " in "@ + f.name@,
        None => "in "@ + f.name@ + seq![':'] + decimal(f.line as nat),
    }
}

/// The line of a frame without source.
pub open spec fn bare_frame_line(f: TracebackFrame) -> Seq<char> {
    "in "@ + f.name@ + seq![':'] + decimal(f.line as nat)
}

/// A numbered source line: a marker (`❱` on the frame's own line), a space,
/// the number left-aligned in `w` cells, and the code without its indent.
pub open spec fn code_line(n: nat, w: nat, marker: bool, code: Seq<char>) -> Seq<char> {
    seq![if marker { '\u{2771}' } else { ' ' }, ' '] + decimal(n) + spaces(sat_sub(w as int, decimal(n).len() as int))
        + std_trim_start(code)
}

/// The first and last line numbers shown for a frame with source lines
/// numbered from `first`: up to `extra` lines around its own line, within
/// the source.
pub open spec fn shown_range(f: TracebackFrame, extra: nat, count: nat) -> (nat, nat) {
    let first = f.source_first_line as nat;
    let last = first + sat_sub(count as int, 1);
    (max_nat(sat_sub(f.line as int, extra as int), first), min_nat((f.line + extra) as nat, last))
}

/// The content lines of a frame: with source, its header, an empty line and
/// the numbered source lines around its line (where that line is within the
/// source); without, one line naming the function and line.
pub open spec fn frame_lines(f: TracebackFrame, extra: nat) -> Seq<Seq<SegmentModel>> {
    match f.source_context {
        None => seq![seq![plain_seg(bare_frame_line(f))]],
        Some(src) => {
            let sl = text_lines(src@);
            let first = f.source_first_line as nat;
            let last = first + sat_sub(sl.len() as int, 1);
            let (start, end) = shown_range(f, extra, sl.len());
            let head = seq![seq![plain_seg(location_line(f))], seq![plain_seg(Seq::empty())]];
            if start <= end && f.line >= first && f.line <= last && sl.len() > 0 {
                let w = decimal(end).len() + 5;
                head + Seq::new(
                    (end - start + 1) as nat,
                    |k: int| seq![plain_seg(code_line((start + k) as nat, w, start + k == f.line, sl[start + k - first]))],
                )
            } else {
                head
            }
        },
    }
}

/// The content lines of the first `k` frames.
pub open spec fn frames_lines(frames: Seq<TracebackFrame>, extra: nat, k: nat) -> Seq<Seq<SegmentModel>>
    decreases k,
{
    if k == 0 || k > frames.len() {
        Seq::empty()
    } else {
        frames_lines(frames, extra, (k - 1) as nat) + frame_lines(frames[k - 1], extra)
    }
}

/// The panel of a traceback rendered `width` cells wide, drawn with box `b`.
pub open spec fn traceback_panel(t: Traceback, width: nat, b: BoxChars) -> PanelModel {
    PanelModel {
        title: Some(TextModel { plain: t.title@, style: crate::style::empty_style_model(true) }),
        width: Some(width as usize),
        ..default_panel(frames_lines(t.frames@, t.extra_lines as nat, t.frames@.len()), b)
    }
}

/// The error line: the kind of error, a colon and the message.
pub open spec fn error_line(t: Traceback) -> Seq<char> {
    t.exception_type@ + seq![':', ' '] + t.exception_message@
}

/// Whether a frame's line numbers can be computed: the last source line
/// number and the frame's line plus the extra lines fit.
pub open spec fn frame_fits(f: TracebackFrame, extra: nat) -> bool {
    f.source_context matches Some(src) ==> {
        &&& f.source_first_line + text_lines(src@).len() <= usize::MAX
        &&& f.line + extra <= usize::MAX
    }
}

/// The inputs on which a traceback renders without overflow.
pub open spec fn traceback_ok(t: Traceback, max_width: nat) -> bool {
    &&& forall|i: int| 0 <= i < t.frames@.len() ==> frame_fits(#[trigger] t.frames@[i], t.extra_lines as nat)
    &&& forall|b: BoxChars| rounded_box(b) ==> #[trigger] panel_ok(traceback_panel(t, max_nat(max_width, 1), b))
}

/// Names of runtime frames: these prefixes, or the traceback's own capture
/// functions.
pub open spec fn internal_prefixes() -> Seq<Seq<char>> {
    seq![
        "std::"@, "core::"@, "alloc::"@, "backtrace::"@, "<alloc::"@, "<core::"@, "<std::"@,
        "rust_begin_unwind"@, "__rust_"@, "_start"@, "main"@, "__libc_"@, "clone"@,
    ]
}

/// Whether a frame name belongs to the runtime rather than user code.
pub open spec fn is_internal_name(name: Seq<char>) -> bool {
    ||| exists|i: int| 0 <= i < internal_prefixes().len() && name.len() >= internal_prefixes()[i].len()
        && #[trigger] name.take(internal_prefixes()[i].len() as int) == internal_prefixes()[i]
    ||| has_substring(name, "Traceback::capture"@)
    ||| has_substring(name, "Traceback::from_backtrace"@)
}

/// Whether `::h` starts at `i`.
pub open spec fn hash_marker_at(s: Seq<char>, i: int) -> bool {
    0 <= i && i + 3 <= s.len() && s[i] == ':' && s[i + 1] == ':' && s[i + 2] == 'h'
}

/// The last position below `k` where `::h` starts.
pub open spec fn last_marker(s: Seq<char>, k: nat) -> Option<nat>
    decreases k,
{
    if k == 0 {
        None
    } else if hash_marker_at(s, k - 1) {
        Some((k - 1) as nat)
    } else {
        last_marker(s, (k - 1) as nat)
    }
}

/// Whether a character is an ASCII hex digit.
pub open spec fn is_hex_digit(c: char) -> bool {
    ('0' <= c <= '9') || ('a' <= c <= 'f') || ('A' <= c <= 'F')
}

/// A function name without a trailing `::h` hash of hex digits.
pub open spec fn demangled(s: Seq<char>) -> Seq<char> {
    match last_marker(s, s.len()) {
        Some(p) => if forall|i: int| p + 3 <= i < s.len() ==> is_hex_digit(#[trigger] s[i]) {
            s.take(p as int)
        } else {
            s
        },
        None => s,
    }
}

/// `10^k`.
pub open spec fn pow10(k: nat) -> nat
    decreases k,
{
    if k == 0 { 1 } else { 10 * pow10((k - 1) as nat) }
}

/// A number below `10^k` has at most `k` digits.
proof fn lemma_decimal_len_below(n: nat, k: nat)
    requires
        k >= 1,
        n < pow10(k),
    ensures
        decimal(n).len() <= k,
    decreases k,
{
    if n >= 10 {
        assert(k >= 2) by {
            if k == 1 {
                assert(pow10(1) == 10 * pow10(0));
            }
        }
        assert(n / 10 < pow10((k - 1) as nat)) by (nonlinear_arith)
            requires n < pow10(k), pow10(k) == 10 * pow10((k - 1) as nat);
        lemma_decimal_len_below(n / 10, (k - 1) as nat);
    }
}

/// A machine number has at most 20 digits.
proof fn lemma_decimal_len(n: nat)
    requires
        n <= usize::MAX,
    ensures
        decimal(n).len() <= 20,
{
    reveal_with_fuel(pow10, 21);
    assert(pow10(20) == 100000000000000000000nat);
    lemma_decimal_len_below(n, 20);
}

/// The content lines of a frame (see `frame_lines`).
fn frame_content(f: &TracebackFrame, extra: usize) -> (r: Vec<Vec<Segment>>)
    requires
        frame_fits(*f, extra as nat),
    ensures
        lines_model(r@) == frame_lines(*f, extra as nat),
{
    let mut out: Vec<Vec<Segment>> = Vec::new();
    match &f.source_context {
        None => {
            let mut t = owned("in ");
            push_str(&mut t, f.name.as_str());
            push_char(&mut t, ':');
            push_decimal(&mut t, f.line);
            assert(t@ =~= bare_frame_line(*f));
            let mut l: Vec<Segment> = Vec::new();
            push_seg(&mut l, Segment::new(t.as_str(), None));
            assert(segs_model(l@) =~= seq![plain_seg(t@)]);
            out.push(l);
            assert(lines_model(out@) =~= frame_lines(*f, extra as nat));
            out
        },
        Some(src) => {
            let mut loc = String::new();
            match &f.filename {
                Some(n) => {
                    push_str(&mut loc, n.as_str());
                    push_char(&mut loc, ':');
                    push_decimal(&mut loc, f.line);
                    push_str(&mut loc, " in ");
                    push_str(&mut loc, f.name.as_str());
                },
                None => {
                    push_str(&mut loc, "in ");
                    push_str(&mut loc, f.name.as_str());
                    push_char(&mut loc, ':');
                    push_decimal(&mut loc, f.line);
                },
            }
            assert(loc@ =~= location_line(*f));
            let mut l1: Vec<Segment> = Vec::new();
            push_seg(&mut l1, Segment::new(loc.as_str(), None));
            let mut l2: Vec<Segment> = Vec::new();
            push_seg(&mut l2, Segment::new(String::new().as_str(), None));
            assert(segs_model(l1@) =~= seq![plain_seg(location_line(*f))]);
            assert(segs_model(l2@) =~= seq![plain_seg(Seq::<char>::empty())]);
            out.push(l1);
            out.push(l2);
            let ghost head = lines_model(out@);
            assert(head =~= seq![seq![plain_seg(location_line(*f))], seq![plain_seg(Seq::<char>::empty())]]);
            let sl = text_lines_exec(src.as_str());
            let ghost slv = char_vecs(sl@);
            let count = sl.len();
            let first = f.source_first_line;
            let last = first + if count > 0 { count - 1 } else { 0 };
            let low = if f.line > extra { f.line - extra } else { 0 };
            let start = if low > first { low } else { first };
            let high = f.line + extra;
            let end = if high < last { high } else { last };
            assert((start as nat, end as nat) == shown_range(*f, extra as nat, count as nat));
            if start <= end && f.line >= first && f.line <= last && count > 0 {
                proof {
                    lemma_decimal_len(end as nat);
                }
                let w = decimal_string(end).as_str().unicode_len() + 5;
                let ghost wn = decimal(end as nat).len() + 5;
                assert(w == wn);
                let mut n = start;
                while n <= end
                    invariant
                        start <= n <= end + 1,
                        end <= last,
                        last == first + sat_sub(count as int, 1),
                        start >= first,
                        count > 0,
                        first == f.source_first_line,
                        count == sl@.len(),
                        slv == char_vecs(sl@),
                        slv == text_lines(src@),
                        w == wn,
                        head == seq![seq![plain_seg(location_line(*f))], seq![plain_seg(Seq::<char>::empty())]],
                        lines_model(out@) == head + Seq::new(
                            (n - start) as nat,
                            |k: int| seq![plain_seg(code_line((start + k) as nat, wn, start + k == f.line, slv[start + k - first]))],
                        ),
                        end < usize::MAX,
                    decreases end + 1 - n,
                {
                    let idx = n - first;
                    let code_chars = &sl[idx];
                    let code_str = string_from_range(code_chars, 0, code_chars.len());
                    assert(code_chars@.subrange(0, code_chars@.len() as int) =~= code_chars@);
                    let code = trim_start(code_str.as_str());
                    let mut t = String::new();
                    push_char(&mut t, if n == f.line { '\u{2771}' } else { ' ' });
                    push_char(&mut t, ' ');
                    let digits = decimal_string(n);
                    let dl = digits.as_str().unicode_len();
                    push_str(&mut t, digits.as_str());
                    push_repeat(&mut t, ' ', if w > dl { w - dl } else { 0 });
                    push_str(&mut t, code);
                    assert(slv[idx as int] == code_chars@);
                    assert(t@ =~= code_line(n as nat, wn, n == f.line, slv[n - first]));
                    let mut l: Vec<Segment> = Vec::new();
                    push_seg(&mut l, Segment::new(t.as_str(), None));
                    assert(segs_model(l@) =~= seq![plain_seg(t@)]);
                    let ghost prev = out@;
                    out.push(l);
                    assert(lines_model(out@) =~= lines_model(prev).push(seq![plain_seg(t@)]));
                    n = n + 1;
                    assert(lines_model(out@) =~= head + Seq::new(
                        (n - start) as nat,
                        |k: int| seq![plain_seg(code_line((start + k) as nat, wn, start + k == f.line, slv[start + k - first]))],
                    ));
                }
            }
            out
        },
    }
}

impl Traceback {
    /// A traceback of frames and an error, titled "Traceback (most recent
    /// call last)", with no extra source lines.
    pub fn new(frames: Vec<TracebackFrame>, exception_type: &str, exception_message: &str) -> (t: Self)
        ensures
            t.frames == frames,
            t.exception_type@ == exception_type@,
            t.exception_message@ == exception_message@,
            t.title@ == "Traceback (most recent call last)"@,
            t.extra_lines == 0,
    {
        Traceback {
            frames,
            exception_type: owned(exception_type),
            exception_message: owned(exception_message),
            title: owned("Traceback (most recent call last)"),
            extra_lines: 0,
        }
    }

    /// Set the panel title.
    pub fn title(self, title: &str) -> (t: Self)
        ensures
            t.title@ == title@,
            t.frames == self.frames,
            t.exception_type == self.exception_type,
            t.exception_message == self.exception_message,
            t.extra_lines == self.extra_lines,
    {
        Traceback { title: owned(title), ..self }
    }

    /// Set how many source lines to show on each side of a frame's line.
    pub fn extra_lines(self, extra_lines: usize) -> (t: Self)
        ensures
            t == (Traceback { extra_lines, ..self }),
    {
        Traceback { extra_lines, ..self }
    }

    /// Add a frame.
    pub fn push_frame(&mut self, frame: TracebackFrame)
        ensures
            final(self).frames@ == old(self).frames@.push(frame),
            final(self).exception_type == old(self).exception_type,
            final(self).exception_message == old(self).exception_message,
            final(self).title == old(self).title,
            final(self).extra_lines == old(self).extra_lines,
    {
        self.frames.push(frame);
    }

    /// Whether a frame name belongs to the runtime (see `is_internal_name`).
    pub fn is_internal_frame(name: &str) -> (r: bool)
        ensures
            r == is_internal_name(name@),
    {
        let v = chars_of(name);
        let prefixes = [
            "std::", "core::", "alloc::", "backtrace::", "<alloc::", "<core::", "<std::", "rust_begin_unwind",
            "__rust_", "_start", "main", "__libc_", "clone",
        ];
        let ghost ps = internal_prefixes();
        proof {
            reveal_strlit("std::");
            reveal_strlit("core::");
            reveal_strlit("alloc::");
            reveal_strlit("backtrace::");
            reveal_strlit("<alloc::");
            reveal_strlit("<core::");
            reveal_strlit("<std::");
            reveal_strlit("rust_begin_unwind");
            reveal_strlit("__rust_");
            reveal_strlit("_start");
            reveal_strlit("main");
            reveal_strlit("__libc_");
            reveal_strlit("clone");
        }
        assert(forall|i: int| 0 <= i < 13 ==> prefixes@[i]@ == #[trigger] ps[i]);
        let mut i: usize = 0;
        while i < 13
            invariant
                i <= 13,
                v@ == name@,
                ps == internal_prefixes(),
                forall|j: int| 0 <= j < 13 ==> prefixes@[j]@ == #[trigger] ps[j],
                forall|j: int| 0 <= j < i ==> !(name@.len() >= ps[j].len() && #[trigger] name@.take(ps[j].len() as int)
                    == ps[j]),
            decreases 13 - i,
        {
            if starts_with_at(&v, 0, prefixes[i]) {
                assert(v@.subrange(0, prefixes[i as int]@.len() as int) =~= name@.take(ps[i as int].len() as int));
                return true;
            }
            assert(name@.len() >= ps[i as int].len() ==> v@.subrange(0, prefixes[i as int]@.len() as int)
                =~= name@.take(ps[i as int].len() as int));
            i += 1;
        }
        contains_str(name, "Traceback::capture") || contains_str(name, "Traceback::from_backtrace")
    }

    /// A function name without its hash suffix (see `demangled`).
    pub fn demangle_name(name: &str) -> (r: String)
        ensures
            r@ == demangled(name@),
    {
        let v = chars_of(name);
        let mut k = v.len();
        while k > 0 && !(v.len() - k >= 2 && v[k - 1] == ':' && v[k] == ':' && v[k + 1] == 'h')
            invariant
                k <= v@.len(),
                v@ == name@,
                last_marker(name@, name@.len()) == last_marker(name@, k as nat),
            decreases k,
        {
            k -= 1;
        }
        if k == 0 {
            return owned(name);
        }
        let p = k - 1;
        let mut j = p + 3;
        let mut all_hex = true;
        while j < v.len()
            invariant
                p + 3 <= j <= v@.len(),
                v@ == name@,
                all_hex == forall|i: int| p + 3 <= i < j ==> is_hex_digit(#[trigger] name@[i]),
            decreases v.len() - j,
        {
            let c = v[j];
            if !(('0' <= c && c <= '9') || ('a' <= c && c <= 'f') || ('A' <= c && c <= 'F')) {
                all_hex = false;
            }
            j += 1;
        }
        if all_hex {
            string_from_range(&v, 0, p)
        } else {
            owned(name)
        }
    }

    /// Render within `max_width` cells: the frames in a panel as wide as
    /// that (at least 1), then the error line.
    pub fn render(&self, max_width: usize) -> (r: Vec<Segment>)
        requires
            traceback_ok(*self, max_width as nat),
        ensures
            exists|b: BoxChars| #![trigger rounded_box(b)] rounded_box(b) && segs_model(r@) == panel_spec(
                traceback_panel(*self, max_nat(max_width as nat, 1), b),
                max_nat(max_width as nat, 1),
            ) + seq![plain_seg(error_line(*self)), newline_seg()],
    {
        let width = if max_width > 1 { max_width } else { 1 };
        let mut content: Vec<Vec<Segment>> = Vec::new();
        let mut i: usize = 0;
        while i < self.frames.len()
            invariant
                i <= self.frames@.len(),
                traceback_ok(*self, max_width as nat),
                lines_model(content@) == frames_lines(self.frames@, self.extra_lines as nat, i as nat),
            decreases self.frames.len() - i,
        {
            assert(frame_fits(self.frames@[i as int], self.extra_lines as nat));
            let mut more = frame_content(&self.frames[i], self.extra_lines);
            let ghost prev = content@;
            let ghost mv = more@;
            content.append(&mut more);
            assert(lines_model(content@) =~= lines_model(prev) + lines_model(mv));
            i += 1;
        }
        let panel = Panel::new(content).title(self.title.as_str()).width(width);
        let ghost b = panel@.box_style;
        assert(panel@ == traceback_panel(*self, width as nat, b));
        let mut out = panel.render(width);
        let mut line = self.exception_type.clone();
        push_char(&mut line, ':');
        push_char(&mut line, ' ');
        push_str(&mut line, self.exception_message.as_str());
        assert(line@ =~= error_line(*self));
        push_seg(&mut out, Segment::new(line.as_str(), None));
        push_seg(&mut out, Segment::line());
        assert(segs_model(out@) =~= panel_spec(traceback_panel(*self, width as nat, b), width as nat)
            + seq![plain_seg(error_line(*self)), newline_seg()]);
        out
    }
}

/// `n` plus the cells of `text`, where that is at most `limit`.
fn add_cells_within(n: usize, text: &str, limit: usize) -> (r: Option<usize>)
    requires
        n <= limit,
    ensures
        match r {
            Some(m) => m == n + cells(text@) && m <= limit,
            None => n + cells(text@) > limit,
        },
{
    let v = chars_of(text);
    let mut total: usize = n;
    let mut i: usize = 0;
    while i < v.len()
        invariant
            i <= v@.len(),
            v@ == text@,
            n <= total <= limit,
            total == n + cells(v@.take(i as int)),
        decreases v.len() - i,
    {
        proof {
            crate::cells::lemma_take_push(v@, i as int);
        }
        let w = crate::cells::get_character_cell_size(v[i]);
        if w > limit - total {
            proof {
                crate::cells::lemma_cells_prefix(v@, i + 1);
            }
            return None;
        }
        total = total + w;
        i += 1;
    }
    assert(v@.take(v@.len() as int) =~= v@);
    Some(total)
}

/// Whether a line's text is at most `limit` cells (see `text_cells`).
fn line_within(line: &Vec<Segment>, limit: usize) -> (r: bool)
    ensures
        r == (crate::renderables::panel::text_cells(segs_model(line@)) <= limit),
{
    let ghost m = segs_model(line@);
    let mut total: usize = 0;
    let mut i: usize = 0;
    while i < line.len()
        invariant
            i <= line@.len(),
            m == segs_model(line@),
            total <= limit,
            total == crate::renderables::panel::text_cells(m.take(i as int)),
        decreases line.len() - i,
    {
        assert(m.take(i + 1).drop_last() =~= m.take(i as int));
        assert(m[i as int].text == line@[i as int].text@);
        match add_cells_within(total, line[i].text.as_str(), limit) {
            Some(t) => {
                total = t;
            },
            None => {
                proof {
                    lemma_text_cells_prefix(m, i + 1);
                }
                return false;
            },
        }
        i += 1;
    }
    assert(m.take(m.len() as int) =~= m);
    true
}

/// A line's first segments take no more cells than all of it.
proof fn lemma_text_cells_prefix(m: Seq<SegmentModel>, k: int)
    requires
        0 <= k <= m.len(),
    ensures
        crate::renderables::panel::text_cells(m.take(k)) <= crate::renderables::panel::text_cells(m),
    decreases m.len() - k,
{
    if k < m.len() {
        lemma_text_cells_prefix(m, k + 1);
        assert(m.take(k + 1).drop_last() =~= m.take(k));
    } else {
        assert(m.take(k) =~= m);
    }
}

/// The widest line is at most `limit` exactly where every line is.
proof fn lemma_content_width_within(lines: Seq<Seq<SegmentModel>>, limit: nat)
    ensures
        (crate::renderables::panel::content_width_spec(lines) <= limit) <==> (forall|i: int|
            0 <= i < lines.len() ==> #[trigger] crate::renderables::panel::text_cells(lines[i]) <= limit),
    decreases lines.len(),
{
    if lines.len() > 0 {
        lemma_content_width_within(lines.drop_last(), limit);
        let d = lines.drop_last();
        assert forall|i: int| 0 <= i < d.len() implies d[i] == lines[i] by {}
        if crate::renderables::panel::content_width_spec(lines) <= limit {
            assert forall|i: int| 0 <= i < lines.len() implies #[trigger] crate::renderables::panel::text_cells(
                lines[i],
            ) <= limit by {
                if i < d.len() {
                    assert(d[i] == lines[i]);
                }
            }
        }
        if forall|i: int| 0 <= i < lines.len() ==> #[trigger] crate::renderables::panel::text_cells(lines[i]) <= limit {
            assert(crate::renderables::panel::text_cells(lines[lines.len() - 1]) <= limit);
            assert forall|i: int| 0 <= i < d.len() implies #[trigger] crate::renderables::panel::text_cells(d[i])
                <= limit by {
                assert(d[i] == lines[i]);
            }
        }
    }
}

/// A rounded box.
spec fn some_rounded_box() -> BoxChars {
    BoxChars {
        top: ['\u{256D}', '\u{2500}', '\u{252C}', '\u{256E}'],
        head: ['\u{2502}', ' ', '\u{2502}', '\u{2502}'],
        head_row: ['\u{2502}', ' ', '\u{2502}', '\u{2502}'],
        mid: ['\u{2502}', ' ', '\u{2502}', '\u{2502}'],
        row: ['\u{2502}', ' ', '\u{2502}', '\u{2502}'],
        foot_row: ['\u{2502}', ' ', '\u{2502}', '\u{2502}'],
        foot: ['\u{2502}', ' ', '\u{2502}', '\u{2502}'],
        bottom: ['\u{2570}', '\u{2500}', '\u{2534}', '\u{256F}'],
        ascii: false,
    }
}

/// A traceback's panel fits the machine exactly where its widest content
/// line leaves room for borders and padding and its title can be counted.
proof fn lemma_traceback_panel_ok(t: Traceback, w: nat)
    ensures
        rounded_box(some_rounded_box()),
        panel_ok(traceback_panel(t, w, some_rounded_box())) == (crate::renderables::panel::content_width_spec(
            frames_lines(t.frames@, t.extra_lines as nat, t.frames@.len()),
        ) <= usize::MAX - 4 && cells(t.title@) <= usize::MAX),
        (forall|b: BoxChars| rounded_box(b) ==> #[trigger] panel_ok(traceback_panel(t, w, b))) <==> (
        crate::renderables::panel::content_width_spec(frames_lines(t.frames@, t.extra_lines as nat, t.frames@.len()))
            <= usize::MAX - 4 && cells(t.title@) <= usize::MAX),
{
    assert(panel_ok(traceback_panel(t, w, some_rounded_box())) == (crate::renderables::panel::content_width_spec(
        frames_lines(t.frames@, t.extra_lines as nat, t.frames@.len()),
    ) <= usize::MAX - 4 && cells(t.title@) <= usize::MAX));
}

impl Traceback {
    /// Whether the traceback renders without overflow (see `traceback_ok`).
    pub fn fits(&self, max_width: usize) -> (r: bool)
        ensures
            r == traceback_ok(*self, max_width as nat),
    {
        let mut i: usize = 0;
        while i < self.frames.len()
            invariant
                i <= self.frames@.len(),
                forall|j: int| 0 <= j < i ==> frame_fits(#[trigger] self.frames@[j], self.extra_lines as nat),
            decreases self.frames.len() - i,
        {
            let f = &self.frames[i];
            match &f.source_context {
                Some(src) => {
                    let n = text_lines_exec(src.as_str()).len();
                    assert(n == text_lines(src@).len());
                    if n > usize::MAX - f.source_first_line || self.extra_lines > usize::MAX - f.line {
                        assert(!frame_fits(self.frames@[i as int], self.extra_lines as nat));
                        return false;
                    }
                },
                None => {},
            }
            i += 1;
        }
        let mut content: Vec<Vec<Segment>> = Vec::new();
        let mut k: usize = 0;
        while k < self.frames.len()
            invariant
                k <= self.frames@.len(),
                forall|j: int| 0 <= j < self.frames@.len() ==> frame_fits(#[trigger] self.frames@[j], self.extra_lines as nat),
                lines_model(content@) == frames_lines(self.frames@, self.extra_lines as nat, k as nat),
            decreases self.frames.len() - k,
        {
            assert(frame_fits(self.frames@[k as int], self.extra_lines as nat));
            let mut more = frame_content(&self.frames[k], self.extra_lines);
            let ghost prev = content@;
            let ghost mv = more@;
            content.append(&mut more);
            assert(lines_model(content@) =~= lines_model(prev) + lines_model(mv));
            k += 1;
        }
        let ghost lines = lines_model(content@);
        let limit: usize = usize::MAX - 4;
        let mut j: usize = 0;
        while j < content.len()
            invariant
                j <= content@.len(),
                limit == usize::MAX - 4,
                lines == lines_model(content@),
                lines == frames_lines(self.frames@, self.extra_lines as nat, self.frames@.len() as nat),
                forall|a: int| 0 <= a < self.frames@.len() ==> frame_fits(#[trigger] self.frames@[a], self.extra_lines as nat),
                forall|a: int| 0 <= a < j ==> #[trigger] crate::renderables::panel::text_cells(lines[a]) <= limit,
            decreases content.len() - j,
        {
            assert(lines[j as int] == segs_model(content@[j as int]@));
            if !line_within(&content[j], limit) {
                proof {
                    assert(!(crate::renderables::panel::text_cells(lines[j as int]) <= limit));
                    lemma_content_width_within(lines, limit as nat);
                    assert(!(crate::renderables::panel::content_width_spec(lines) <= limit));
                    lemma_traceback_panel_ok(*self, max_nat(max_width as nat, 1));
                    let pm = traceback_panel(*self, max_nat(max_width as nat, 1), some_rounded_box());
                    assert(pm.content_lines == lines);
                    assert(crate::renderables::panel::hpad(pm) == 2);
                    assert(!panel_ok(pm));
                    assert(!traceback_ok(*self, max_width as nat));
                }
                return false;
            }
            j += 1;
        }
        proof {
            lemma_content_width_within(lines, limit as nat);
            lemma_traceback_panel_ok(*self, max_nat(max_width as nat, 1));
        }
        let title_ok = add_cells_within(0, self.title.as_str(), usize::MAX).is_some();
        title_ok
    }

    /// Render as `render` does, or `None` where that would overflow (see
    /// `traceback_ok`).
    pub fn checked_render(&self, max_width: usize) -> (r: Option<Vec<Segment>>)
        ensures
            r is Some <==> traceback_ok(*self, max_width as nat),
            r matches Some(v) ==> exists|b: BoxChars| #![trigger rounded_box(b)] rounded_box(b) && segs_model(v@)
                == panel_spec(traceback_panel(*self, max_nat(max_width as nat, 1), b), max_nat(max_width as nat, 1))
                + seq![plain_seg(error_line(*self)), newline_seg()],
    {
        if self.fits(max_width) {
            Some(self.render(max_width))
        } else {
            None
        }
    }
}

} // verus!
