//! Console - the central entry point for styled terminal output.
//!
//! The [`Console`] holds the output configuration (color system, dimensions,
//! markup and capture settings), turns segments into the characters written
//! to the terminal, and collects them until they are sent to the output
//! stream.
use vstd::prelude::*;
use crate::color::ColorSystem;
use crate::segment::{
    controls_model, plain_model, segs_model, ControlCode, ControlCodeModel, ControlType, Segment, SegmentModel,
};
use crate::style::{empty_style_model, render_ansi_spec, style_codes_defined, Style, StyleModel};
use crate::terminal::{detect_color_system_with, get_terminal_height, get_terminal_width, is_terminal, EnvSettings};
use crate::text::{text_segs, JustifyMethod, OverflowMethod, Text};
use crate::terminal::control::title_sequence;
use crate::cells::cells;
use crate::text_ops::{decimal, owned, push_char, push_str, signed_decimal, signed_decimal_string};

verus! {

/// Console dimensions in cells.
#[derive(Debug, Clone, Copy, PartialEq, Eq, Structural)]
pub struct ConsoleDimensions {
    /// Width in cells.
    pub width: usize,
    /// Height in rows.
    pub height: usize,
}

impl Default for ConsoleDimensions {
    fn default() -> (d: Self)
        ensures
            d == (ConsoleDimensions { width: 80, height: 24 }),
    {
        ConsoleDimensions { width: 80, height: 24 }
    }
}

/// Options for rendering.
#[derive(Debug)]
pub struct ConsoleOptions {
    /// Terminal dimensions.
    pub size: ConsoleDimensions,
    /// Using legacy Windows console.
    pub legacy_windows: bool,
    /// Minimum width constraint.
    pub min_width: usize,
    /// Maximum width constraint.
    pub max_width: usize,
    /// Output is a terminal (vs file/pipe).
    pub is_terminal: bool,
    /// Output encoding.
    pub encoding: String,
    /// Maximum height for rendering.
    pub max_height: usize,
    /// Default justification.
    pub justify: Option<JustifyMethod>,
    /// Default overflow handling.
    pub overflow: Option<OverflowMethod>,
    /// Default `no_wrap` setting.
    pub no_wrap: Option<bool>,
    /// Enable highlighting.
    pub highlight: Option<bool>,
    /// Parse markup in strings.
    pub markup: Option<bool>,
    /// Explicit height override.
    pub height: Option<usize>,
}

impl Clone for ConsoleOptions {
    fn clone(&self) -> (c: Self)
        ensures
            c == *self,
    {
        ConsoleOptions { encoding: self.encoding.clone(), ..*self }
    }
}

impl Default for ConsoleOptions {
    fn default() -> (o: Self)
        ensures
            o.size == (ConsoleDimensions { width: 80, height: 24 }),
            !o.legacy_windows,
            o.min_width == 1,
            o.max_width == 80,
            o.is_terminal,
            o.encoding@ == "utf-8"@,
            o.max_height == usize::MAX,
            o.justify is None,
            o.overflow is None,
            o.no_wrap is None,
            o.highlight is None,
            o.markup is None,
            o.height is None,
    {
        ConsoleOptions {
            size: ConsoleDimensions::default(),
            legacy_windows: false,
            min_width: 1,
            max_width: 80,
            is_terminal: true,
            encoding: owned("utf-8"),
            max_height: usize::MAX,
            justify: None,
            overflow: None,
            no_wrap: None,
            highlight: None,
            markup: None,
            height: None,
        }
    }
}

impl ConsoleOptions {
    /// Create options with a `max_width` no larger than `width`.
    pub fn update_width(&self, width: usize) -> (o: Self)
        ensures
            o == (ConsoleOptions {
                max_width: if width < self.max_width { width } else { self.max_width },
                ..*self
            }),
    {
        let max_width = if width < self.max_width { width } else { self.max_width };
        ConsoleOptions { max_width, ..self.clone() }
    }

    /// Create options with a different height.
    pub fn update_height(&self, height: usize) -> (o: Self)
        ensures
            o == (ConsoleOptions { height: Some(height), ..*self }),
    {
        ConsoleOptions { height: Some(height), ..self.clone() }
    }
}

/// Print options for controlling output.
#[derive(Debug)]
pub struct PrintOptions {
    /// String to separate multiple objects.
    pub sep: String,
    /// String to append at end.
    pub end: String,
    /// Apply style to output.
    pub style: Option<Style>,
    /// Override justification.
    pub justify: Option<JustifyMethod>,
    /// Override overflow handling.
    pub overflow: Option<OverflowMethod>,
    /// Override `no_wrap`.
    pub no_wrap: Option<bool>,
    /// Suppress newline.
    pub no_newline: bool,
    /// Parse markup.
    pub markup: Option<bool>,
    /// Enable highlighting.
    pub highlight: bool,
    /// Override width.
    pub width: Option<usize>,
    /// Crop output to width.
    pub crop: bool,
    /// Soft wrap at width.
    pub soft_wrap: bool,
}

impl Clone for PrintOptions {
    fn clone(&self) -> (c: Self)
        ensures
            c == *self,
    {
        PrintOptions {
            sep: self.sep.clone(),
            end: self.end.clone(),
            style: match &self.style { Some(s) => Some(s.clone()), None => None },
            ..*self
        }
    }
}

/// Print options with empty separator and end and every option unset.
pub open spec fn blank_print_options(o: PrintOptions) -> bool {
    &&& o.sep@.len() == 0
    &&& o.end@.len() == 0
    &&& o.style is None
    &&& o.justify is None
    &&& o.overflow is None
    &&& o.no_wrap is None
    &&& !o.no_newline
    &&& o.markup is None
    &&& !o.highlight
    &&& o.width is None
    &&& !o.crop
    &&& !o.soft_wrap
}

impl Default for PrintOptions {
    fn default() -> (o: Self)
        ensures
            blank_print_options(o),
    {
        PrintOptions {
            sep: String::new(),
            end: String::new(),
            style: None,
            justify: None,
            overflow: None,
            no_wrap: None,
            no_newline: false,
            markup: None,
            highlight: false,
            width: None,
            crop: false,
            soft_wrap: false,
        }
    }
}

impl PrintOptions {
    /// Create new print options: a space between objects, a newline at the
    /// end, everything else unset.
    pub fn new() -> (o: Self)
        ensures
            o.sep@ == " "@,
            o.end@ == "\n"@,
            o.style is None && o.justify is None && o.overflow is None && o.no_wrap is None,
            !o.no_newline && o.markup is None && !o.highlight && o.width is None,
            !o.crop && !o.soft_wrap,
    {
        PrintOptions { sep: owned(" "), end: owned("\n"), ..PrintOptions::default() }
    }

    /// Set markup parsing.
    pub fn with_markup(self, markup: bool) -> (o: Self)
        ensures
            o == (PrintOptions { markup: Some(markup), ..self }),
    {
        PrintOptions { markup: Some(markup), ..self }
    }

    /// Set style.
    pub fn with_style(self, style: Style) -> (o: Self)
        ensures
            o == (PrintOptions { style: Some(style), ..self }),
    {
        PrintOptions { style: Some(style), ..self }
    }

    /// Set the separator between objects.
    pub fn with_sep(self, sep: &str) -> (o: Self)
        ensures
            o.sep@ == sep@,
            o == (PrintOptions { sep: o.sep, ..self }),
    {
        PrintOptions { sep: owned(sep), ..self }
    }

    /// Set the end string appended after output.
    pub fn with_end(self, end: &str) -> (o: Self)
        ensures
            o.end@ == end@,
            o == (PrintOptions { end: o.end, ..self }),
    {
        PrintOptions { end: owned(end), ..self }
    }

    /// Override justification.
    pub fn with_justify(self, justify: JustifyMethod) -> (o: Self)
        ensures
            o == (PrintOptions { justify: Some(justify), ..self }),
    {
        PrintOptions { justify: Some(justify), ..self }
    }

    /// Override overflow handling.
    pub fn with_overflow(self, overflow: OverflowMethod) -> (o: Self)
        ensures
            o == (PrintOptions { overflow: Some(overflow), ..self }),
    {
        PrintOptions { overflow: Some(overflow), ..self }
    }

    /// Override `no_wrap`.
    pub fn with_no_wrap(self, no_wrap: bool) -> (o: Self)
        ensures
            o == (PrintOptions { no_wrap: Some(no_wrap), ..self }),
    {
        PrintOptions { no_wrap: Some(no_wrap), ..self }
    }

    /// Suppress newline at end.
    pub fn with_no_newline(self, no_newline: bool) -> (o: Self)
        ensures
            o == (PrintOptions { no_newline, ..self }),
    {
        PrintOptions { no_newline, ..self }
    }

    /// Enable/disable highlighting.
    pub fn with_highlight(self, highlight: bool) -> (o: Self)
        ensures
            o == (PrintOptions { highlight, ..self }),
    {
        PrintOptions { highlight, ..self }
    }

    /// Override width.
    pub fn with_width(self, width: usize) -> (o: Self)
        ensures
            o == (PrintOptions { width: Some(width), ..self }),
    {
        PrintOptions { width: Some(width), ..self }
    }

    /// Crop output to width.
    pub fn with_crop(self, crop: bool) -> (o: Self)
        ensures
            o == (PrintOptions { crop, ..self }),
    {
        PrintOptions { crop, ..self }
    }

    /// Soft wrap at width.
    pub fn with_soft_wrap(self, soft_wrap: bool) -> (o: Self)
        ensures
            o == (PrintOptions { soft_wrap, ..self }),
    {
        PrintOptions { soft_wrap, ..self }
    }
}

/// Log level for console log messages.
#[derive(Debug, Clone, Copy, PartialEq, Eq, Structural)]
pub enum LogLevel {
    Debug,
    Info,
    Warning,
    Error,
}

/// Whether every styled segment's colors have escape codes in the color
/// system (see `segments_renderable`).
pub fn segments_writable(segments: &[Segment], cs: Option<ColorSystem>) -> (r: bool)
    ensures
        r == segments_renderable(segs_model(segments@), cs),
{
    let ghost m = segs_model(segments@);
    let mut i: usize = 0;
    while i < segments.len()
        invariant
            i <= segments@.len(),
            m == segs_model(segments@),
            segments_renderable(m.take(i as int), cs),
        decreases segments.len() - i,
    {
        assert(m[i as int] == segments@[i as int]@);
        let ok = match (&segments[i].style, cs) {
            (Some(st), Some(c)) => st.codes_defined(c),
            _ => true,
        };
        if !ok {
            assert(!segments_renderable(m, cs)) by {
                assert(m[i as int].style == segments@[i as int]@.style);
            }
            return false;
        }
        proof {
            assert forall|j: int| 0 <= j < i + 1 implies match (#[trigger] m.take(i + 1)[j].style, cs) {
                (Some(s), Some(c)) => style_codes_defined(s, c),
                _ => true,
            } by {
                if j < i {
                    assert(m.take(i + 1)[j] == m.take(i as int)[j]);
                }
            }
        }
        i += 1;
    }
    assert(m.take(m.len() as int) =~= m);
    true
}

/// The parameter at `index` when it is positive, else `default`.
pub open spec fn control_param_spec(params: Seq<i32>, index: int, default: i32) -> i32 {
    if 0 <= index < params.len() && params[index] > 0 { params[index] } else { default }
}

/// The 1-based terminal column of a move to a 0-based column: the first
/// parameter plus one, or the first column where it is absent or negative.
pub open spec fn column_spec(params: Seq<i32>) -> nat {
    if params.len() > 0 && params[0] >= 0 { (params[0] + 1) as nat } else { 1 }
}

/// The erase-in-line mode: the first parameter when it is 0, 1 or 2, else 2.
pub open spec fn erase_mode_spec(params: Seq<i32>) -> i32 {
    if params.len() > 0 && 0 <= params[0] <= 2 { params[0] } else { 2 }
}

/// The characters of the parameters that are bytes (0 to 255), in order.
pub open spec fn title_chars(params: Seq<i32>) -> Seq<char>
    decreases params.len(),
{
    if params.len() == 0 {
        Seq::empty()
    } else {
        title_chars(params.drop_last()) + if 0 <= params.last() <= 255 {
            seq![((params.last() as u8) as char)]
        } else {
            Seq::empty()
        }
    }
}

/// The title a window-title control sets: the segment's text when it has one,
/// else the characters of its byte parameters, if any.
pub open spec fn control_title_spec(text: Seq<char>, params: Seq<i32>) -> Option<Seq<char>> {
    if text.len() > 0 {
        Some(text)
    } else if title_chars(params).len() == 0 {
        None
    } else {
        Some(title_chars(params))
    }
}

/// The escape sequence `ESC [`, a number and a final character.
pub open spec fn csi(n: i32, fin: Seq<char>) -> Seq<char> {
    "\x1b["@ + signed_decimal(n as int) + fin
}

/// What a control code writes to the terminal.
pub open spec fn control_out(c: ControlCodeModel, text: Seq<char>) -> Seq<char> {
    match c.control_type {
        ControlType::Bell => "\x07"@,
        ControlType::CarriageReturn => "\r"@,
        ControlType::Home => "\x1b[H"@,
        ControlType::Clear => "\x1b[2J"@,
        ControlType::ShowCursor => "\x1b[?25h"@,
        ControlType::HideCursor => "\x1b[?25l"@,
        ControlType::EnableAltScreen => "\x1b[?1049h"@,
        ControlType::DisableAltScreen => "\x1b[?1049l"@,
        ControlType::CursorUp => csi(control_param_spec(c.params, 0, 1), "A"@),
        ControlType::CursorDown => csi(control_param_spec(c.params, 0, 1), "B"@),
        ControlType::CursorForward => csi(control_param_spec(c.params, 0, 1), "C"@),
        ControlType::CursorBackward => csi(control_param_spec(c.params, 0, 1), "D"@),
        ControlType::CursorMoveToColumn => "\x1b["@ + decimal(column_spec(c.params)) + "G"@,
        ControlType::CursorMoveTo => "\x1b["@ + signed_decimal(control_param_spec(c.params, 0, 1) as int)
            + ";"@ + signed_decimal(control_param_spec(c.params, 1, 1) as int) + "H"@,
        ControlType::EraseInLine => csi(erase_mode_spec(c.params), "K"@),
        ControlType::SetWindowTitle => match control_title_spec(text, c.params) {
            Some(t) => "\x1b]0;"@ + t + "\x07"@,
            None => Seq::empty(),
        },
    }
}

/// What a run of control codes writes, in order.
pub open spec fn controls_out(cs: Seq<ControlCodeModel>, text: Seq<char>) -> Seq<char>
    decreases cs.len(),
{
    if cs.len() == 0 {
        Seq::empty()
    } else {
        controls_out(cs.drop_last(), text) + control_out(cs.last(), text)
    }
}

/// What a segment writes: the control sequences of a control segment; the
/// text of a text segment, wrapped in its style's escape sequences when it has
/// a style and colors are enabled.
pub open spec fn segment_out(m: SegmentModel, cs: Option<ColorSystem>) -> Seq<char> {
    if m.control is Some {
        controls_out(m.control->0, m.text)
    } else {
        match (m.style, cs) {
            (Some(s), Some(c)) => render_ansi_spec(s, c).0 + m.text + render_ansi_spec(s, c).1,
            _ => m.text,
        }
    }
}

/// What a sequence of segments writes, in order.
pub open spec fn segments_out(segs: Seq<SegmentModel>, cs: Option<ColorSystem>) -> Seq<char>
    decreases segs.len(),
{
    if segs.len() == 0 {
        Seq::empty()
    } else {
        segments_out(segs.drop_last(), cs) + segment_out(segs.last(), cs)
    }
}

/// Every styled segment's colors have escape codes in the color system.
pub open spec fn segments_renderable(segs: Seq<SegmentModel>, cs: Option<ColorSystem>) -> bool {
    forall|i: int| 0 <= i < segs.len() ==> match (#[trigger] segs[i].style, cs) {
        (Some(s), Some(c)) => style_codes_defined(s, c),
        _ => true,
    }
}

/// The parameter at `index` when it is positive, else `default`.
fn control_param(params: &[i32], index: usize, default: i32) -> (r: i32)
    ensures
        r == control_param_spec(params@, index as int, default),
{
    if index < params.len() && params[index] > 0 {
        params[index]
    } else {
        default
    }
}

/// The erase-in-line mode of a control's parameters.
fn erase_in_line_mode(params: &[i32]) -> (r: i32)
    ensures
        r == erase_mode_spec(params@),
{
    if params.len() > 0 && 0 <= params[0] && params[0] <= 2 {
        return params[0];
    }
    2
}

/// The title a window-title control sets, if any.
fn control_title(segment: &Segment, control: &ControlCode) -> (r: Option<String>)
    ensures
        match r {
            Some(t) => control_title_spec(segment@.text, control@.params) == Some(t@),
            None => control_title_spec(segment@.text, control@.params) is None,
        },
{
    if !segment.text.as_str().is_empty() {
        return Some(segment.text.clone());
    }
    let mut title = String::new();
    let mut i: usize = 0;
    while i < control.params.len()
        invariant
            i <= control.params@.len(),
            title@ == title_chars(control.params@.take(i as int)),
        decreases control.params.len() - i,
    {
        let p = control.params[i];
        proof {
            assert(control.params@.take(i + 1).drop_last() =~= control.params@.take(i as int));
        }
        if 0 <= p && p <= 255 {
            let b = p as u8;
            push_char(&mut title, b as char);
        } else {
            assert(title@ =~= title@ + Seq::<char>::empty());
        }
        i += 1;
    }
    assert(control.params@.take(control.params@.len() as int) =~= control.params@);
    if title.as_str().is_empty() {
        None
    } else {
        Some(title)
    }
}

/// Appends `ESC [`, a number and a final character.
fn push_csi(out: &mut String, n: i32, fin: &str)
    ensures
        final(out)@ == old(out)@ + csi(n, fin@),
{
    push_str(out, "\x1b[");
    let d = signed_decimal_string(n);
    push_str(out, d.as_str());
    push_str(out, fin);
    assert(final(out)@ =~= old(out)@ + csi(n, fin@));
}

/// Appends what one control code writes.
fn push_control(out: &mut String, segment: &Segment, control: &ControlCode)
    ensures
        final(out)@ == old(out)@ + control_out(control@, segment@.text),
{
    match control.control_type {
        ControlType::Bell => push_str(out, "\x07"),
        ControlType::CarriageReturn => push_str(out, "\r"),
        ControlType::Home => push_str(out, "\x1b[H"),
        ControlType::Clear => push_str(out, "\x1b[2J"),
        ControlType::ShowCursor => push_str(out, "\x1b[?25h"),
        ControlType::HideCursor => push_str(out, "\x1b[?25l"),
        ControlType::EnableAltScreen => push_str(out, "\x1b[?1049h"),
        ControlType::DisableAltScreen => push_str(out, "\x1b[?1049l"),
        ControlType::CursorUp => push_csi(out, control_param(control.params.as_slice(), 0, 1), "A"),
        ControlType::CursorDown => push_csi(out, control_param(control.params.as_slice(), 0, 1), "B"),
        ControlType::CursorForward => push_csi(out, control_param(control.params.as_slice(), 0, 1), "C"),
        ControlType::CursorBackward => push_csi(out, control_param(control.params.as_slice(), 0, 1), "D"),
        ControlType::CursorMoveToColumn => {
            let col: usize = if control.params.len() > 0 && control.params[0] >= 0 {
                control.params[0] as usize + 1
            } else {
                1
            };
            push_str(out, "\x1b[");
            crate::text_ops::push_decimal(out, col);
            push_str(out, "G");
            assert(final(out)@ =~= old(out)@ + control_out(control@, segment@.text));
        },
        ControlType::CursorMoveTo => {
            let row = control_param(control.params.as_slice(), 0, 1);
            let column = control_param(control.params.as_slice(), 1, 1);
            push_str(out, "\x1b[");
            let r = signed_decimal_string(row);
            push_str(out, r.as_str());
            push_str(out, ";");
            let c = signed_decimal_string(column);
            push_str(out, c.as_str());
            push_str(out, "H");
            assert(final(out)@ =~= old(out)@ + control_out(control@, segment@.text));
        },
        ControlType::EraseInLine => push_csi(out, erase_in_line_mode(control.params.as_slice()), "K"),
        ControlType::SetWindowTitle => {
            if let Some(title) = control_title(segment, control) {
                push_str(out, "\x1b]0;");
                push_str(out, title.as_str());
                push_str(out, "\x07");
                assert(final(out)@ =~= old(out)@ + control_out(control@, segment@.text));
            } else {
                assert(final(out)@ =~= old(out)@ + control_out(control@, segment@.text));
            }
        },
    }
}

/// Appends what a control segment writes.
fn push_controls(out: &mut String, segment: &Segment, controls: &Vec<ControlCode>)
    ensures
        final(out)@ == old(out)@ + controls_out(controls_model(controls@), segment@.text),
{
    let ghost cm = controls_model(controls@);
    let mut i: usize = 0;
    assert(old(out)@ =~= old(out)@ + controls_out(cm.take(0), segment@.text));
    while i < controls.len()
        invariant
            i <= controls@.len(),
            cm == controls_model(controls@),
            out@ == old(out)@ + controls_out(cm.take(i as int), segment@.text),
        decreases controls.len() - i,
    {
        proof {
            assert(cm.take(i + 1).drop_last() =~= cm.take(i as int));
            assert(cm[i as int] == controls@[i as int]@);
        }
        push_control(out, segment, &controls[i]);
        i += 1;
    }
    assert(cm.take(cm.len() as int) =~= cm);
}

/// Appends what one segment writes.
fn push_segment(out: &mut String, segment: &Segment, color_system: Option<ColorSystem>)
    requires
        match (segment@.style, color_system) {
            (Some(s), Some(c)) => style_codes_defined(s, c),
            _ => true,
        },
    ensures
        final(out)@ == old(out)@ + segment_out(segment@, color_system),
{
    if let Some(controls) = &segment.control {
        push_controls(out, segment, controls);
        return;
    }
    match (&segment.style, color_system) {
        (Some(style), Some(cs)) => {
            let (prefix, suffix) = style.render_ansi(cs);
            push_str(out, prefix.as_str());
            push_str(out, segment.text.as_str());
            push_str(out, suffix.as_str());
            assert(final(out)@ =~= old(out)@ + segment_out(segment@, color_system));
        },
        _ => {
            push_str(out, segment.text.as_str());
        },
    }
}

/// The characters that a sequence of segments writes to the terminal.
pub fn render_segments(segments: &[Segment], color_system: Option<ColorSystem>) -> (s: String)
    requires
        segments_renderable(segs_model(segments@), color_system),
    ensures
        s@ == segments_out(segs_model(segments@), color_system),
{
    let ghost m = segs_model(segments@);
    let mut out = String::new();
    let mut i: usize = 0;
    assert(out@ =~= segments_out(m.take(0), color_system));
    while i < segments.len()
        invariant
            i <= segments@.len(),
            m == segs_model(segments@),
            segments_renderable(m, color_system),
            out@ == segments_out(m.take(i as int), color_system),
        decreases segments.len() - i,
    {
        proof {
            assert(m.take(i + 1).drop_last() =~= m.take(i as int));
            assert(m[i as int] == segments@[i as int]@);
            assert(m[i as int].style == segments@[i as int]@.style);
        }
        push_segment(&mut out, &segments[i], color_system);
        i += 1;
    }
    assert(m.take(m.len() as int) =~= m);
    out
}

/// The main Console for rendering styled output. What it writes is collected
/// in order until it is taken to be sent to the output stream.
pub struct Console {
    /// Color system to use (None = auto-detect).
    color_system: Option<ColorSystem>,
    /// Force terminal mode.
    force_terminal: Option<bool>,
    /// Tab expansion size.
    tab_size: usize,
    /// Buffer output for export.
    record: bool,
    /// Parse markup by default.
    pub markup: bool,
    /// Enable emoji rendering.
    emoji: bool,
    /// Enable syntax highlighting.
    highlight: bool,
    /// Override width.
    width: Option<usize>,
    /// Override height.
    height: Option<usize>,
    /// Use ASCII-safe box characters.
    safe_box: bool,
    /// Recording buffer.
    buffer: Vec<Segment>,
    /// Whether the output is a terminal.
    is_terminal: bool,
    /// Detected color system.
    detected_color_system: Option<ColorSystem>,
    /// Written characters not yet sent to the output stream.
    output: String,
}

/// The value of a console.
pub struct ConsoleModel {
    pub color_system: Option<ColorSystem>,
    pub force_terminal: Option<bool>,
    pub tab_size: usize,
    pub record: bool,
    pub markup: bool,
    pub emoji: bool,
    pub highlight: bool,
    pub width: Option<usize>,
    pub height: Option<usize>,
    pub safe_box: bool,
    pub buffer: Seq<SegmentModel>,
    pub is_terminal: bool,
    pub detected_color_system: Option<ColorSystem>,
    pub output: Seq<char>,
}

impl View for Console {
    type V = ConsoleModel;

    closed spec fn view(&self) -> ConsoleModel {
        ConsoleModel {
            color_system: self.color_system,
            force_terminal: self.force_terminal,
            tab_size: self.tab_size,
            record: self.record,
            markup: self.markup,
            emoji: self.emoji,
            highlight: self.highlight,
            width: self.width,
            height: self.height,
            safe_box: self.safe_box,
            buffer: segs_model(self.buffer@),
            is_terminal: self.is_terminal,
            detected_color_system: self.detected_color_system,
            output: self.output@,
        }
    }
}

/// The configuration of a new console, given whether its output is a terminal
/// and the color system detected for it.
pub open spec fn default_console(is_terminal: bool, detected: Option<ColorSystem>) -> ConsoleModel {
    ConsoleModel {
        color_system: None,
        force_terminal: None,
        tab_size: 8,
        record: false,
        markup: true,
        emoji: true,
        highlight: true,
        width: None,
        height: None,
        safe_box: false,
        buffer: Seq::empty(),
        is_terminal,
        detected_color_system: detected,
        output: Seq::empty(),
    }
}

/// The color system that a console's own settings select.
pub open spec fn console_color_system(c: ConsoleModel) -> Option<ColorSystem> {
    if c.color_system is Some { c.color_system } else { c.detected_color_system }
}

/// Appends the recorded copies of segments.
fn record_segments(buffer: &mut Vec<Segment>, segments: &[Segment])
    ensures
        segs_model(final(buffer)@) == segs_model(old(buffer)@) + segs_model(segments@),
{
    let mut i: usize = 0;
    let ghost start = segs_model(buffer@);
    while i < segments.len()
        invariant
            i <= segments@.len(),
            start == segs_model(old(buffer)@),
            buffer@.len() == old(buffer)@.len() + i,
            segs_model(buffer@) == start + segs_model(segments@.take(i as int)),
        decreases segments.len() - i,
    {
        let ghost prev = buffer@;
        let s = segments[i].clone();
        assert(s@ == segments@[i as int]@);
        buffer.push(s);
        proof {
            assert(segs_model(buffer@) =~= segs_model(prev).push(s@));
            assert(segs_model(segments@.take(i + 1)) =~= segs_model(segments@.take(i as int)).push(s@));
            assert(segs_model(buffer@) =~= start + segs_model(segments@.take(i + 1)));
        }
        i += 1;
    }
    assert(segments@.take(segments@.len() as int) =~= segments@);
}

impl Console {
    /// Create a new console with default settings. Whether the output is a
    /// terminal is asked of the standard output; a terminal gets the standard
    /// colors unless a color system is set.
    pub fn new() -> (c: Self)
        ensures
            c@ == default_console(c@.is_terminal, if c@.is_terminal { Some(ColorSystem::Standard) } else { None }),
    {
        let tty = is_terminal();
        let env = EnvSettings { no_color: None, force_color: None, colorterm: None, term: None };
        let detected = detect_color_system_with(&env, tty);
        let c = Console {
            color_system: None,
            force_terminal: None,
            tab_size: 8,
            record: false,
            markup: true,
            emoji: true,
            highlight: true,
            width: None,
            height: None,
            safe_box: false,
            buffer: Vec::new(),
            is_terminal: tty,
            detected_color_system: detected,
            output: String::new(),
        };
        assert(segs_model(c.buffer@) =~= Seq::<SegmentModel>::empty());
        assert(c.output@ =~= Seq::<char>::empty());
        c
    }

    /// Create a new console as `new` does, with the color system detected
    /// from the given environment settings (`NO_COLOR`, `FORCE_COLOR`,
    /// `COLORTERM`, `TERM`) for its output.
    pub fn with_env(env: &EnvSettings) -> (c: Self)
        ensures
            c@ == default_console(c@.is_terminal, crate::terminal::detect_spec(*env, c@.is_terminal)),
    {
        let c = Console::new();
        let detected = detect_color_system_with(env, c.is_terminal);
        c.with_detected_color_system(detected)
    }

    /// The same console with another detected color system (as found from the
    /// environment of the process).
    pub fn with_detected_color_system(self, detected: Option<ColorSystem>) -> (c: Self)
        ensures
            c@ == (ConsoleModel { detected_color_system: detected, ..self@ }),
    {
        Console { detected_color_system: detected, ..self }
    }

    /// Create a console builder for custom configuration.
    pub fn builder() -> (b: ConsoleBuilder)
        ensures
            b@ == empty_builder(),
    {
        ConsoleBuilder::default()
    }

    /// Get the console width: the configured width, or the terminal's.
    pub fn width(&self) -> (w: usize)
        ensures
            self@.width matches Some(x) ==> w == x,
            self@.width is None ==> exists|s: Option<(usize, usize)>|
                (s matches Some((a, b)) ==> a <= u16::MAX && b <= u16::MAX) && w
                    == #[trigger] crate::terminal::width_from_spec(s),
    {
        match self.width {
            Some(w) => w,
            None => get_terminal_width(),
        }
    }

    /// Get the console height: the configured height, or the terminal's.
    pub fn height(&self) -> (h: usize)
        ensures
            self@.height matches Some(x) ==> h == x,
            self@.height is None ==> exists|s: Option<(usize, usize)>|
                (s matches Some((a, b)) ==> a <= u16::MAX && b <= u16::MAX) && h
                    == #[trigger] crate::terminal::height_from_spec(s),
    {
        match self.height {
            Some(h) => h,
            None => get_terminal_height(),
        }
    }

    /// Get the console dimensions.
    pub fn size(&self) -> (d: ConsoleDimensions)
        ensures
            self@.width matches Some(x) ==> d.width == x,
            self@.height matches Some(x) ==> d.height == x,
    {
        ConsoleDimensions { width: self.width(), height: self.height() }
    }

    /// Check if this console outputs to a terminal.
    pub fn is_terminal(&self) -> (r: bool)
        ensures
            r == match self@.force_terminal { Some(f) => f, None => self@.is_terminal },
    {
        match self.force_terminal {
            Some(f) => f,
            None => self.is_terminal,
        }
    }

    /// Get the color system in use.
    pub fn color_system(&self) -> (r: Option<ColorSystem>)
        ensures
            r == console_color_system(self@),
    {
        match self.color_system {
            Some(cs) => Some(cs),
            None => self.detected_color_system,
        }
    }

    /// Check if colors are enabled.
    pub fn is_color_enabled(&self) -> (r: bool)
        ensures
            r == console_color_system(self@) is Some,
    {
        self.color_system().is_some()
    }

    /// Get the tab size.
    pub fn tab_size(&self) -> (n: usize)
        ensures
            n == self@.tab_size,
    {
        self.tab_size
    }

    /// Create console options for rendering: the console's size as the
    /// maximum width and height, its terminal status, highlight and markup.
    pub fn options(&self) -> (o: ConsoleOptions)
        ensures
            o.max_width == o.size.width,
            o.max_height == o.size.height,
            self@.width matches Some(x) ==> o.size.width == x,
            self@.height matches Some(x) ==> o.size.height == x,
            !o.legacy_windows,
            o.min_width == 1,
            o.is_terminal == match self@.force_terminal { Some(f) => f, None => self@.is_terminal },
            o.encoding@ == "utf-8"@,
            o.justify is None && o.overflow is None && o.no_wrap is None && o.height is None,
            o.highlight == Some(self@.highlight),
            o.markup == Some(self@.markup),
    {
        let size = self.size();
        ConsoleOptions {
            size,
            legacy_windows: false,
            min_width: 1,
            max_width: size.width,
            is_terminal: self.is_terminal(),
            encoding: owned("utf-8"),
            max_height: size.height,
            justify: None,
            overflow: None,
            no_wrap: None,
            highlight: Some(self.highlight),
            markup: Some(self.markup),
            height: None,
        }
    }

    /// Enable recording mode, starting with an empty buffer.
    pub fn begin_capture(&mut self)
        ensures
            final(self)@ == begin_capture_effect(old(self)@),
    {
        self.record = true;
        self.buffer = Vec::new();
        assert(segs_model(self.buffer@) =~= Seq::<SegmentModel>::empty());
    }

    /// End recording and return the captured segments.
    pub fn end_capture(&mut self) -> (v: Vec<Segment>)
        ensures
            segs_model(v@) == old(self)@.buffer,
            final(self)@ == (ConsoleModel { record: false, buffer: Seq::empty(), ..old(self)@ }),
    {
        self.record = false;
        let mut v: Vec<Segment> = Vec::new();
        std::mem::swap(&mut v, &mut self.buffer);
        assert(segs_model(self.buffer@) =~= Seq::<SegmentModel>::empty());
        v
    }

    /// Print prepared segments: they are recorded when capturing, and their
    /// characters (see `segments_out`) are written in the console's color system.
    pub fn print_segments(&mut self, segments: &[Segment])
        requires
            segments_renderable(segs_model(segments@), console_color_system(old(self)@)),
        ensures
            final(self)@ == print_effect(old(self)@, segs_model(segments@)),
    {
        if self.record {
            record_segments(&mut self.buffer, segments);
        }
        let cs = self.color_system();
        let written = render_segments(segments, cs);
        push_str(&mut self.output, written.as_str());
    }

    /// Print a blank line.
    pub fn line(&mut self)
        ensures
            final(self)@ == (ConsoleModel { output: old(self)@.output.push('\n'), ..old(self)@ }),
    {
        push_char(&mut self.output, '\n');
    }

    /// Clear the screen.
    pub fn clear(&mut self)
        ensures
            final(self)@ == (ConsoleModel { output: old(self)@.output + crate::terminal::control::csi(seq!['2', 'J']), ..old(self)@ }),
    {
        crate::terminal::control::clear_screen(&mut self.output);
    }

    /// Clear the current line.
    pub fn clear_line(&mut self)
        ensures
            final(self)@ == (ConsoleModel { output: old(self)@.output + crate::terminal::control::csi(seq!['2', 'K']), ..old(self)@ }),
    {
        crate::terminal::control::clear_line(&mut self.output);
    }

    /// Set the terminal's title.
    pub fn set_title(&mut self, title: &str)
        ensures
            final(self)@ == (ConsoleModel { output: old(self)@.output + title_sequence(title@), ..old(self)@ }),
    {
        crate::terminal::control::set_title(&mut self.output, title);
    }

    /// Ring the terminal's bell.
    pub fn bell(&mut self)
        ensures
            final(self)@ == (ConsoleModel { output: old(self)@.output.push('\x07'), ..old(self)@ }),
    {
        crate::terminal::control::bell(&mut self.output);
    }

    /// Print text: its segments (see `Text::render`), then the end of the line.
    pub fn print_text(&mut self, text: &Text)
        requires
            console_color_system(old(self)@) matches Some(c) ==> style_codes_defined(text@.style, c),
        ensures
            final(self)@ == print_effect(old(self)@, text_segs(text@.plain, text@.style).push(newline_model())),
    {
        let mut segs = text.render();
        let ghost body = segs_model(segs@);
        segs.push(Segment::line());
        assert(segs_model(segs@) =~= body.push(newline_model()));
        self.print_segments(segs.as_slice());
    }

    /// Print characters as they are, without reading markup, then the end of
    /// the line.
    pub fn print_plain(&mut self, content: &str)
        ensures
            final(self)@ == print_effect(
                old(self)@,
                text_segs(content@, empty_style_model(true)).push(newline_model()),
            ),
    {
        let text = Text::new(content);
        proof {
            lemma_null_style_defined();
        }
        self.print_text(&text);
    }

    /// Take the characters written so far, to send them to the output stream.
    pub fn take_output(&mut self) -> (s: String)
        ensures
            s@ == old(self)@.output,
            final(self)@ == (ConsoleModel { output: Seq::empty(), ..old(self)@ }),
    {
        let mut s = String::new();
        std::mem::swap(&mut s, &mut self.output);
        s
    }
}

/// The color system a built console detects (see `ConsoleBuilder::build`).
pub open spec fn builder_detected_spec(env: Option<EnvSettings>, no_color: bool, tty: bool) -> Option<ColorSystem> {
    if no_color {
        None
    } else {
        match env {
            Some(e) => crate::terminal::detect_spec(e, tty),
            None => if tty { Some(ColorSystem::Standard) } else { None },
        }
    }
}

/// The color system a built console detects (see `builder_detected_spec`).
fn builder_detected(env: &Option<EnvSettings>, no_color: bool, tty: bool) -> (r: Option<ColorSystem>)
    ensures
        r == builder_detected_spec(*env, no_color, tty),
{
    if no_color {
        None
    } else {
        match env {
            Some(e) => detect_color_system_with(e, tty),
            None => if tty { Some(ColorSystem::Standard) } else { None },
        }
    }
}

/// Builder for creating a Console with custom settings.
#[derive(Debug)]
pub struct ConsoleBuilder {
    color_system: Option<ColorSystem>,
    force_terminal: Option<bool>,
    tab_size: Option<usize>,
    markup: Option<bool>,
    emoji: Option<bool>,
    highlight: Option<bool>,
    width: Option<usize>,
    height: Option<usize>,
    safe_box: Option<bool>,
    no_color: bool,
    env: Option<EnvSettings>,
}

/// The settings a console builder holds, each set or unset.
pub struct ConsoleBuilderModel {
    pub color_system: Option<ColorSystem>,
    pub force_terminal: Option<bool>,
    pub tab_size: Option<usize>,
    pub markup: Option<bool>,
    pub emoji: Option<bool>,
    pub highlight: Option<bool>,
    pub width: Option<usize>,
    pub height: Option<usize>,
    pub safe_box: Option<bool>,
    pub no_color: bool,
    pub env: Option<EnvSettings>,
}

impl View for ConsoleBuilder {
    type V = ConsoleBuilderModel;

    closed spec fn view(&self) -> ConsoleBuilderModel {
        ConsoleBuilderModel {
            color_system: self.color_system,
            force_terminal: self.force_terminal,
            tab_size: self.tab_size,
            markup: self.markup,
            emoji: self.emoji,
            highlight: self.highlight,
            width: self.width,
            height: self.height,
            safe_box: self.safe_box,
            no_color: self.no_color,
            env: self.env,
        }
    }
}

/// A builder with nothing set.
pub open spec fn empty_builder() -> ConsoleBuilderModel {
    ConsoleBuilderModel {
        color_system: None,
        force_terminal: None,
        tab_size: None,
        markup: None,
        emoji: None,
        highlight: None,
        width: None,
        height: None,
        safe_box: None,
        no_color: false,
        env: None,
    }
}

impl Default for ConsoleBuilder {
    fn default() -> (b: Self)
        ensures
            b@ == empty_builder(),
    {
        ConsoleBuilder {
            color_system: None,
            force_terminal: None,
            tab_size: None,
            markup: None,
            emoji: None,
            highlight: None,
            width: None,
            height: None,
            safe_box: None,
            no_color: false,
            env: None,
        }
    }
}

/// A setting, or its default where unset.
pub open spec fn setting_or<T>(o: Option<T>, d: T) -> T {
    match o { Some(v) => v, None => d }
}

impl ConsoleBuilder {
    /// Set the color system.
    pub fn color_system(self, system: ColorSystem) -> (b: Self)
        ensures
            b@ == (ConsoleBuilderModel { color_system: Some(system), ..self@ }),
    {
        ConsoleBuilder { color_system: Some(system), ..self }
    }

    /// Disable colors: clears a color system set before.
    pub fn no_color(self) -> (b: Self)
        ensures
            b@ == (ConsoleBuilderModel { color_system: None, no_color: true, ..self@ }),
    {
        ConsoleBuilder { color_system: None, no_color: true, ..self }
    }

    /// Detect the color system from these environment settings (`NO_COLOR`,
    /// `FORCE_COLOR`, `COLORTERM`, `TERM`) rather than from none.
    pub fn env(self, settings: EnvSettings) -> (b: Self)
        ensures
            b@ == (ConsoleBuilderModel { env: Some(settings), ..self@ }),
    {
        ConsoleBuilder { env: Some(settings), ..self }
    }

    /// Force terminal mode.
    pub fn force_terminal(self, force: bool) -> (b: Self)
        ensures
            b@ == (ConsoleBuilderModel { force_terminal: Some(force), ..self@ }),
    {
        ConsoleBuilder { force_terminal: Some(force), ..self }
    }

    /// Set tab size.
    pub fn tab_size(self, size: usize) -> (b: Self)
        ensures
            b@ == (ConsoleBuilderModel { tab_size: Some(size), ..self@ }),
    {
        ConsoleBuilder { tab_size: Some(size), ..self }
    }

    /// Enable/disable markup parsing.
    pub fn markup(self, enabled: bool) -> (b: Self)
        ensures
            b@ == (ConsoleBuilderModel { markup: Some(enabled), ..self@ }),
    {
        ConsoleBuilder { markup: Some(enabled), ..self }
    }

    /// Enable/disable emoji.
    pub fn emoji(self, enabled: bool) -> (b: Self)
        ensures
            b@ == (ConsoleBuilderModel { emoji: Some(enabled), ..self@ }),
    {
        ConsoleBuilder { emoji: Some(enabled), ..self }
    }

    /// Enable/disable highlighting.
    pub fn highlight(self, enabled: bool) -> (b: Self)
        ensures
            b@ == (ConsoleBuilderModel { highlight: Some(enabled), ..self@ }),
    {
        ConsoleBuilder { highlight: Some(enabled), ..self }
    }

    /// Set console width.
    pub fn width(self, width: usize) -> (b: Self)
        ensures
            b@ == (ConsoleBuilderModel { width: Some(width), ..self@ }),
    {
        ConsoleBuilder { width: Some(width), ..self }
    }

    /// Set console height.
    pub fn height(self, height: usize) -> (b: Self)
        ensures
            b@ == (ConsoleBuilderModel { height: Some(height), ..self@ }),
    {
        ConsoleBuilder { height: Some(height), ..self }
    }

    /// Use ASCII-safe box characters.
    pub fn safe_box(self, safe: bool) -> (b: Self)
        ensures
            b@ == (ConsoleBuilderModel { safe_box: Some(safe), ..self@ }),
    {
        ConsoleBuilder { safe_box: Some(safe), ..self }
    }

    /// Build the console: a new console with the settings that were set.
    pub fn build(self) -> (c: Console)
        ensures
            c@ == (ConsoleModel {
                color_system: self@.color_system,
                force_terminal: self@.force_terminal,
                tab_size: setting_or(self@.tab_size, 8),
                markup: setting_or(self@.markup, true),
                emoji: setting_or(self@.emoji, true),
                highlight: setting_or(self@.highlight, true),
                width: self@.width,
                height: self@.height,
                safe_box: setting_or(self@.safe_box, false),
                ..default_console(c@.is_terminal, c@.detected_color_system)
            }),
            c@.detected_color_system == builder_detected_spec(self@.env, self@.no_color, c@.is_terminal),
    {
        let mut console = Console::new();
        console.detected_color_system = builder_detected(&self.env, self.no_color, console.is_terminal);
        if let Some(cs) = self.color_system {
            console.color_system = Some(cs);
        }
        if let Some(ft) = self.force_terminal {
            console.force_terminal = Some(ft);
        }
        if let Some(ts) = self.tab_size {
            console.tab_size = ts;
        }
        if let Some(m) = self.markup {
            console.markup = m;
        }
        if let Some(e) = self.emoji {
            console.emoji = e;
        }
        if let Some(h) = self.highlight {
            console.highlight = h;
        }
        if let Some(w) = self.width {
            console.width = Some(w);
        }
        if let Some(h) = self.height {
            console.height = Some(h);
        }
        if let Some(sb) = self.safe_box {
            console.safe_box = sb;
        }
        console
    }
}

/// A console after `begin_capture`: recording, with an empty buffer.
pub open spec fn begin_capture_effect(c: ConsoleModel) -> ConsoleModel {
    ConsoleModel { record: true, buffer: Seq::empty(), ..c }
}

/// A console after printing segments: they are recorded when recording, and
/// their characters are written in the console's color system.
pub open spec fn print_effect(c: ConsoleModel, segs: Seq<SegmentModel>) -> ConsoleModel {
    ConsoleModel {
        buffer: if c.record { c.buffer + segs } else { c.buffer },
        output: c.output + segments_out(segs, console_color_system(c)),
        ..c
    }
}

/// What segments write, written one run after another, is what the runs
/// together write.
pub proof fn lemma_segments_out_concat(a: Seq<SegmentModel>, b: Seq<SegmentModel>, cs: Option<ColorSystem>)
    ensures
        segments_out(a + b, cs) == segments_out(a, cs) + segments_out(b, cs),
    decreases b.len(),
{
    if b.len() == 0 {
        assert(a + b =~= a);
        assert(segments_out(a, cs) + Seq::<char>::empty() =~= segments_out(a, cs));
    } else {
        assert((a + b).drop_last() =~= a + b.drop_last());
        lemma_segments_out_concat(a, b.drop_last(), cs);
        assert(segments_out(a + b, cs) =~= segments_out(a, cs) + segments_out(b, cs));
    }
}

/// Printing two runs of segments one after the other has the effect of
/// printing them together.
pub proof fn law_print_concat(c: ConsoleModel, a: Seq<SegmentModel>, b: Seq<SegmentModel>)
    ensures
        print_effect(print_effect(c, a), b) == print_effect(c, a + b),
{
    lemma_segments_out_concat(a, b, console_color_system(c));
    assert(print_effect(print_effect(c, a), b).output =~= print_effect(c, a + b).output);
    assert(print_effect(print_effect(c, a), b).buffer =~= print_effect(c, a + b).buffer);
}

/// What is printed between `begin_capture` and `end_capture` is what the
/// capture returns, in order.
pub proof fn law_capture_returns_printed(c: ConsoleModel, a: Seq<SegmentModel>, b: Seq<SegmentModel>)
    ensures
        print_effect(print_effect(begin_capture_effect(c), a), b).buffer == a + b,
{
    assert(Seq::<SegmentModel>::empty() + a =~= a);
}

/// The end of a line, unstyled.
pub open spec fn newline_model() -> SegmentModel {
    plain_model(seq!['\n'], None)
}

/// The null style has no colors, so every color system can write it.
proof fn lemma_null_style_defined()
    ensures
        forall|c: ColorSystem| style_codes_defined(empty_style_model(true), c),
{
}

/// The characters of an optional string.
pub open spec fn opt_text(t: Option<&str>) -> Option<Seq<char>> {
    match t {
        Some(t) => Some(t@),
        None => None,
    }
}

/// A rule's title, cut with an ellipsis to leave a space on each side
/// within `width` cells.
#[verifier::opaque]
pub open spec fn rule_title(t: Seq<char>, width: nat) -> Seq<char> {
    let max_title = crate::renderables::table::sat_sub(width as int, 2);
    if cells(t) > max_title {
        crate::text::truncated(t, max_title, OverflowMethod::Ellipsis)
    } else {
        t
    }
}

/// The line a console rule writes across `width` cells: the line character
/// (`-` with safe boxes, else `─`) all across; with a title, the title, cut
/// with an ellipsis to leave room for a space on each side, centered between
/// two runs of the line character (the right run taking the odd cell).
pub open spec fn rule_line(title: Option<Seq<char>>, width: nat, safe: bool) -> Seq<char> {
    let ch = if safe { '-' } else { '\u{2500}' };
    match title {
        None => crate::text_ops::repeat_spec(ch, width).push('\n'),
        Some(t) => {
            let shown = rule_title(t, width);
            let avail = crate::renderables::table::sat_sub(width as int, (cells(shown) + 2) as int);
            let left = avail / 2;
            crate::text_ops::repeat_spec(ch, left) + seq![' '] + shown + seq![' '] + crate::text_ops::repeat_spec(
                ch,
                (avail - left) as nat,
            ) + seq!['\n']
        },
    }
}

impl Console {
    /// Write a rule `width` cells wide (see `rule_line`).
    pub fn rule_at(&mut self, title: Option<&str>, width: usize)
        requires
            title matches Some(t) ==> cells(t@) <= usize::MAX,
        ensures
            final(self)@ == (ConsoleModel {
                output: old(self)@.output + rule_line(opt_text(title), width as nat, old(self)@.safe_box),
                ..old(self)@
            }),
    {
        push_rule(&mut self.output, title, width, self.safe_box);
    }

    /// Write a rule across the console's width (see `rule_at` and `width`).
    pub fn rule(&mut self, title: Option<&str>)
        requires
            title matches Some(t) ==> cells(t@) <= usize::MAX,
        ensures
            exists|w: usize|
                (old(self)@.width matches Some(x) ==> w == x) && final(self)@ == (ConsoleModel {
                    output: old(self)@.output + #[trigger] rule_line(
                        opt_text(title),
                        w as nat,
                        old(self)@.safe_box,
                    ),
                    ..old(self)@
                }),
    {
        let w = self.width();
        self.rule_at(title, w);
    }
}

/// Appends a rule with a title (see `rule_line`).
#[verifier::rlimit(30)]
fn push_titled_rule(out: &mut String, t: &str, width: usize, safe: bool)
    requires
        cells(t@) <= usize::MAX,
    ensures
        final(out)@ == old(out)@ + rule_line(Some(t@), width as nat, safe),
{
    let ch = if safe { '-' } else { '\u{2500}' };
    let ghost before = out@;
    let max_title = if width >= 2 { width - 2 } else { 0 };
    let tl = crate::cells::cell_len(t);
    let mut text = Text::new(t);
    if tl > max_title {
        text.truncate(max_title, OverflowMethod::Ellipsis);
    }
    let shown = text.plain();
    assert(shown@ == rule_title(t@, width as nat)) by {
        reveal(rule_title);
    }
    let dl = crate::cells::cell_len(shown);
    let avail = if width >= 2 && width - 2 >= dl { width - 2 - dl } else { 0 };
    let left = avail / 2;
    let ghost sh = shown@;
    let ghost l = crate::text_ops::repeat_spec(ch, left as nat);
    let ghost r = crate::text_ops::repeat_spec(ch, (avail - left) as nat);
    crate::text_ops::push_repeat(out, ch, left);
    push_char(out, ' ');
    push_str(out, shown);
    push_char(out, ' ');
    assert(out@ =~= before + (l + seq![' '] + sh + seq![' ']));
    let ghost mid = out@;
    crate::text_ops::push_repeat(out, ch, avail - left);
    push_char(out, '\n');
    assert(out@ =~= mid + r + seq!['\n']);
    proof {
        let rl = rule_line(Some(t@), width as nat, safe);
        assert(avail == crate::renderables::table::sat_sub(width as int, (cells(sh) + 2) as int));
        assert(rl == l + seq![' '] + sh + seq![' '] + r + seq!['\n']);
    }
    assert(out@ =~= before + rule_line(Some(t@), width as nat, safe));
}

/// Appends a rule (see `rule_line`).
fn push_rule(out: &mut String, title: Option<&str>, width: usize, safe: bool)
    requires
        title matches Some(t) ==> cells(t@) <= usize::MAX,
    ensures
        final(out)@ == old(out)@ + rule_line(opt_text(title), width as nat, safe),
{
    match title {
        None => {
            let ch = if safe { '-' } else { '\u{2500}' };
            let ghost before = out@;
            crate::text_ops::push_repeat(out, ch, width);
            push_char(out, '\n');
            assert(out@ =~= before + rule_line(opt_text(title), width as nat, safe));
        },
        Some(t) => push_titled_rule(out, t, width, safe),
    }
}

} // verus!
