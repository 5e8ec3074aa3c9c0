//! Progress indicators: bar styles and animated spinners.
use vstd::prelude::*;
use vstd::string::StrSliceExecFns;
use crate::segment::{plain_model, push_seg, segs_model, Segment, SegmentModel};
use crate::style::{empty_style_model, Style, StyleModel};
use crate::text::{Text, TextModel};
use crate::text_ops::{decimal, owned, push_char, push_decimal_u64, push_str, repeat_seq, repeat_str, spaces};
use crate::cells::{cell_len_saturating, cells};
use crate::renderables::rule::{newline_seg, segments_text, texts};
use crate::renderables::table::sat_sub;
use crate::style::{join_strings, join_with, views};
use crate::renderables::markdown::{colored_or_default, with_color_or_default};

verus! {

/// Character sets for drawing progress bars.
#[derive(Debug, Clone, Copy, PartialEq, Eq, Default, Structural)]
pub enum BarStyle {
    /// Standard ASCII bar using # and -
    Ascii,
    /// Unicode block characters
    #[default]
    Block,
    /// Thin line style
    Line,
    /// Dots style
    Dots,
    /// Shaded gradient style
    Gradient,
}

/// The character of the completed part of a bar.
pub open spec fn completed_glyph(b: BarStyle) -> Seq<char> {
    match b {
        BarStyle::Ascii => seq!['#'],
        BarStyle::Block | BarStyle::Gradient => seq!['\u{2588}'],
        BarStyle::Line => seq!['\u{2501}'],
        BarStyle::Dots => seq!['\u{25CF}'],
    }
}

/// The character of the remaining part of a bar.
pub open spec fn remaining_glyph(b: BarStyle) -> Seq<char> {
    match b {
        BarStyle::Ascii => seq!['-'],
        BarStyle::Block | BarStyle::Gradient => seq!['\u{2591}'],
        BarStyle::Line => seq!['\u{2500}'],
        BarStyle::Dots => seq!['\u{25CB}'],
    }
}

/// The character at the edge of completion.
pub open spec fn pulse_glyph(b: BarStyle) -> Seq<char> {
    match b {
        BarStyle::Ascii => seq!['>'],
        BarStyle::Block | BarStyle::Gradient => seq!['\u{2593}'],
        BarStyle::Line => seq!['\u{257A}'],
        BarStyle::Dots => seq!['\u{25CF}'],
    }
}

impl BarStyle {
    /// The character for the completed part.
    pub fn completed_char(&self) -> (s: &'static str)
        ensures
            s@ == completed_glyph(*self),
    {
        match self {
            BarStyle::Ascii => {
                proof {
                    reveal_strlit("#");
                }
                "#"
            },
            BarStyle::Block => {
                proof {
                    reveal_strlit("\u{2588}");
                }
                "\u{2588}"
            },
            BarStyle::Line => {
                proof {
                    reveal_strlit("\u{2501}");
                }
                "\u{2501}"
            },
            BarStyle::Dots => {
                proof {
                    reveal_strlit("\u{25CF}");
                }
                "\u{25CF}"
            },
            BarStyle::Gradient => {
                proof {
                    reveal_strlit("\u{2588}");
                }
                "\u{2588}"
            },
        }
    }

    /// The character for the remaining part.
    pub fn remaining_char(&self) -> (s: &'static str)
        ensures
            s@ == remaining_glyph(*self),
    {
        match self {
            BarStyle::Ascii => {
                proof {
                    reveal_strlit("-");
                }
                "-"
            },
            BarStyle::Block => {
                proof {
                    reveal_strlit("\u{2591}");
                }
                "\u{2591}"
            },
            BarStyle::Line => {
                proof {
                    reveal_strlit("\u{2500}");
                }
                "\u{2500}"
            },
            BarStyle::Dots => {
                proof {
                    reveal_strlit("\u{25CB}");
                }
                "\u{25CB}"
            },
            BarStyle::Gradient => {
                proof {
                    reveal_strlit("\u{2591}");
                }
                "\u{2591}"
            },
        }
    }

    /// The character at the edge of completion.
    pub fn pulse_char(&self) -> (s: &'static str)
        ensures
            s@ == pulse_glyph(*self),
    {
        match self {
            BarStyle::Ascii => {
                proof {
                    reveal_strlit(">");
                }
                ">"
            },
            BarStyle::Block => {
                proof {
                    reveal_strlit("\u{2593}");
                }
                "\u{2593}"
            },
            BarStyle::Line => {
                proof {
                    reveal_strlit("\u{257A}");
                }
                "\u{257A}"
            },
            BarStyle::Dots => {
                proof {
                    reveal_strlit("\u{25CF}");
                }
                "\u{25CF}"
            },
            BarStyle::Gradient => {
                proof {
                    reveal_strlit("\u{2593}");
                }
                "\u{2593}"
            },
        }
    }
}

/// An animated spinner: a cycle of frames and the current position in it.
#[derive(Debug)]
pub struct Spinner {
    /// Animation frames.
    frames: Vec<&'static str>,
    /// Current frame index.
    frame_index: usize,
    /// Style for the spinner.
    style: Style,
}

/// The value of a spinner.
pub struct SpinnerModel {
    pub frames: Seq<Seq<char>>,
    pub index: nat,
    pub style: StyleModel,
}

/// The characters of a sequence of frames.
pub open spec fn frame_views(v: Seq<&'static str>) -> Seq<Seq<char>> {
    v.map_values(|f: &'static str| f@)
}

impl View for Spinner {
    type V = SpinnerModel;

    closed spec fn view(&self) -> SpinnerModel {
        SpinnerModel { frames: frame_views(self.frames@), index: self.frame_index as nat, style: self.style@ }
    }
}

impl Spinner {
    /// The position is within the frames (or 0 without frames).
    #[verifier::type_invariant]
    closed spec fn well_formed(&self) -> bool {
        &&& (self.frames@.len() == 0 ==> self.frame_index == 0)
        &&& (self.frames@.len() > 0 ==> self.frame_index < self.frames@.len())
    }
}

/// The frame a spinner shows: the one at its position, or a space without frames.
pub open spec fn shown_frame(s: SpinnerModel) -> Seq<char> {
    if s.frames.len() == 0 { " "@ } else { s.frames[s.index as int] }
}

/// The position after advancing one frame.
pub open spec fn advanced(s: SpinnerModel) -> nat {
    if s.frames.len() == 0 { s.index } else { (((s.index + 1) as int) % (s.frames.len() as int)) as nat }
}

impl Spinner {
    /// A spinner over the given frames, at the first, in a plain style.
    fn with_frames(frames: Vec<&'static str>) -> (s: Self)
        ensures
            s@ == (SpinnerModel { frames: frame_views(frames@), index: 0, style: crate::style::empty_style_model(false) }),
    {
        Spinner { frames, frame_index: 0, style: Style::new() }
    }

    /// A braille dots spinner.
    pub fn dots() -> (s: Self)
        ensures
            s@.frames.len() == 10 && s@.index == 0,
    {
        Spinner::with_frames(vec!["\u{280B}", "\u{2819}", "\u{2839}", "\u{2838}", "\u{283C}", "\u{2834}", "\u{2826}", "\u{2827}", "\u{2807}", "\u{280F}"])
    }

    /// A scan line spinner.
    pub fn line() -> (s: Self)
        ensures
            s@.frames.len() == 6 && s@.index == 0,
    {
        Spinner::with_frames(vec!["\u{23BA}", "\u{23BB}", "\u{23BC}", "\u{23BD}", "\u{23BC}", "\u{23BB}"])
    }

    /// A simple `|/-\` spinner.
    pub fn simple() -> (s: Self)
        ensures
            s@.frames == seq!["|"@, "/"@, "-"@, "\\"@] && s@.index == 0,
    {
        let s = Spinner::with_frames(vec!["|", "/", "-", "\\"]);
        assert(s@.frames =~= seq!["|"@, "/"@, "-"@, "\\"@]);
        s
    }

    /// A bouncing ball spinner.
    pub fn bounce() -> (s: Self)
        ensures
            s@.frames.len() == 4 && s@.index == 0,
    {
        Spinner::with_frames(vec!["\u{2801}", "\u{2802}", "\u{2804}", "\u{2802}"])
    }

    /// A growing dots spinner.
    pub fn growing() -> (s: Self)
        ensures
            s@.frames.len() == 8 && s@.index == 0,
    {
        Spinner::with_frames(vec!["\u{28FE}", "\u{28FD}", "\u{28FB}", "\u{28BF}", "\u{287F}", "\u{28DF}", "\u{28EF}", "\u{28F7}"])
    }

    /// A moon phase spinner.
    pub fn moon() -> (s: Self)
        ensures
            s@.frames.len() == 8 && s@.index == 0,
    {
        Spinner::with_frames(vec!["\u{1F311}", "\u{1F312}", "\u{1F313}", "\u{1F314}", "\u{1F315}", "\u{1F316}", "\u{1F317}", "\u{1F318}"])
    }

    /// A clock spinner.
    pub fn clock() -> (s: Self)
        ensures
            s@.frames.len() == 12 && s@.index == 0,
    {
        Spinner::with_frames(vec![
            "\u{1F550}", "\u{1F551}", "\u{1F552}", "\u{1F553}", "\u{1F554}", "\u{1F555}",
            "\u{1F556}", "\u{1F557}", "\u{1F558}", "\u{1F559}", "\u{1F55A}", "\u{1F55B}",
        ])
    }

    /// A spinner over custom frames.
    pub fn custom(frames: Vec<&'static str>) -> (s: Self)
        ensures
            s@ == (SpinnerModel { frames: frame_views(frames@), index: 0, style: crate::style::empty_style_model(false) }),
    {
        Spinner::with_frames(frames)
    }

    /// Set the spinner style.
    pub fn style(self, style: Style) -> (s: Self)
        ensures
            s@ == (SpinnerModel { style: style@, ..self@ }),
    {
        proof {
            use_type_invariant(&self);
        }
        Spinner { style, ..self }
    }

    /// Return the current frame and advance to the next, wrapping around.
    pub fn next_frame(&mut self) -> (f: &'static str)
        ensures
            f@ == shown_frame(old(self)@),
            final(self)@ == (SpinnerModel { index: advanced(old(self)@), ..old(self)@ }),
    {
        proof {
            use_type_invariant(&*self);
        }
        if self.frames.len() == 0 {
            proof {
                reveal_strlit(" ");
            }
            return " ";
        }
        let frame = self.frames[self.frame_index];
        self.frame_index = (self.frame_index + 1) % self.frames.len();
        frame
    }

    /// The current frame, without advancing.
    pub fn current_frame(&self) -> (f: &'static str)
        ensures
            f@ == shown_frame(self@),
    {
        proof {
            use_type_invariant(self);
        }
        if self.frames.len() == 0 {
            return " ";
        }
        self.frames[self.frame_index]
    }

    /// The current frame as a segment in the spinner's style.
    pub fn render(&self) -> (s: Segment)
        ensures
            s@ == plain_model(shown_frame(self@), Some(self@.style)),
    {
        Segment::new(self.current_frame(), Some(self.style.clone()))
    }
}

impl Default for Spinner {
    fn default() -> (s: Self)
        ensures
            s@.frames.len() == 10 && s@.index == 0,
    {
        Spinner::dots()
    }
}

/// The position after advancing `k` frames.
pub open spec fn advanced_by(s: SpinnerModel, k: nat) -> nat
    decreases k,
{
    if k == 0 { s.index } else { advanced(SpinnerModel { index: advanced_by(s, (k - 1) as nat), ..s }) }
}

/// A spinner comes back to its frame after a full cycle: advancing as many
/// times as it has frames returns to the same position.
pub proof fn law_spinner_cycles(s: SpinnerModel)
    requires
        s.frames.len() > 0,
        s.index < s.frames.len(),
    ensures
        advanced_by(s, s.frames.len()) == s.index,
{
    lemma_advanced_by(s, s.frames.len());
    let n = s.frames.len() as int;
    let i = s.index as int;
    assert((i + n) % n == i) by (nonlinear_arith)
        requires 0 <= i < n;
}

/// Advancing `k` frames moves the position `k` steps around the cycle.
pub proof fn lemma_advanced_by(s: SpinnerModel, k: nat)
    requires
        s.frames.len() > 0,
        s.index < s.frames.len(),
    ensures
        advanced_by(s, k) == ((s.index + k) as int) % (s.frames.len() as int),
    decreases k,
{
    let n = s.frames.len() as int;
    let i = s.index as int;
    let kk = k as int;
    if k == 0 {
        assert(i % n == i) by (nonlinear_arith)
            requires 0 <= i < n;
    } else {
        lemma_advanced_by(s, (k - 1) as nat);
        let p = (i + kk - 1) % n;
        assert((p + 1) % n == (i + kk) % n) by (nonlinear_arith)
            requires n > 0, p == (i + kk - 1) % n, kk >= 1, i >= 0;
    }
}


/// A point in time, read from the system clock.
#[verifier::external_type_specification]
#[verifier::external_body]
pub struct ExInstant(std::time::Instant);

/// `Instant::now`: the current time. It depends on the clock, so nothing is
/// stated of it.
#[verifier::external_body]
fn instant_now() -> (t: std::time::Instant) {
    std::time::Instant::now()
}

/// `Instant::elapsed`: the time since `start`. It depends on the clock, so
/// nothing is stated of it.
#[verifier::external_body]
fn time_since(start: &std::time::Instant) -> (d: core::time::Duration) {
    start.elapsed()
}

/// `Duration::as_nanos`: the whole nanoseconds of a duration. A duration is
/// opaque here, so nothing is stated of the number.
#[verifier::external_body]
fn duration_nanos(d: &core::time::Duration) -> (n: u128) {
    d.as_nanos()
}

/// Nanoseconds in a second.
pub const NANOS_PER_SEC: u64 = 1_000_000_000;

/// The shortest elapsed time, in nanoseconds, from which a rate is estimated.
pub const MIN_RATE_NANOS: u64 = 100_000_000;

/// A progress bar: how much is done, how it is drawn and what it shows
/// beside the bar.
///
/// The progress is the exact fraction `done / scale`; it may exceed one where
/// more was counted than the total.
#[derive(Debug)]
pub struct ProgressBar {
    done: u64,
    scale: u64,
    total: Option<u64>,
    current: u64,
    width: usize,
    bar_style: BarStyle,
    completed_style: Style,
    remaining_style: Style,
    pulse_style: Style,
    show_percentage: bool,
    show_eta: bool,
    show_elapsed: bool,
    show_speed: bool,
    description: Option<Text>,
    start_time: Option<std::time::Instant>,
    show_brackets: bool,
    finished_message: Option<String>,
    is_finished: bool,
}

/// The value of a progress bar; `timed` says whether it keeps a start time.
pub struct ProgressBarModel {
    pub done: nat,
    pub scale: nat,
    pub total: Option<u64>,
    pub current: nat,
    pub width: nat,
    pub bar_style: BarStyle,
    pub completed_style: StyleModel,
    pub remaining_style: StyleModel,
    pub pulse_style: StyleModel,
    pub show_percentage: bool,
    pub show_eta: bool,
    pub show_elapsed: bool,
    pub show_speed: bool,
    pub description: Option<TextModel>,
    pub timed: bool,
    pub show_brackets: bool,
    pub finished_message: Option<Seq<char>>,
    pub is_finished: bool,
}

impl View for ProgressBar {
    type V = ProgressBarModel;

    closed spec fn view(&self) -> ProgressBarModel {
        ProgressBarModel {
            done: self.done as nat,
            scale: self.scale as nat,
            total: self.total,
            current: self.current as nat,
            width: self.width as nat,
            bar_style: self.bar_style,
            completed_style: self.completed_style@,
            remaining_style: self.remaining_style@,
            pulse_style: self.pulse_style@,
            show_percentage: self.show_percentage,
            show_eta: self.show_eta,
            show_elapsed: self.show_elapsed,
            show_speed: self.show_speed,
            description: match self.description {
                Some(t) => Some(t@),
                None => None,
            },
            timed: self.start_time is Some,
            show_brackets: self.show_brackets,
            finished_message: match self.finished_message {
                Some(m) => Some(m@),
                None => None,
            },
            is_finished: self.is_finished,
        }
    }
}

impl ProgressBar {
    /// The fraction has a positive denominator.
    #[verifier::type_invariant]
    closed spec fn well_formed(&self) -> bool {
        self.scale > 0
    }
}

/// A plain style in the named color.
#[verifier::opaque]
pub open spec fn named_color_style(name: Seq<char>) -> StyleModel {
    colored_or_default(empty_style_model(false), name)
}

/// A fresh bar: nothing done, forty cells wide, block characters, green,
/// grey and cyan parts, the percentage and brackets shown, nothing else.
pub open spec fn default_bar_model() -> ProgressBarModel {
    ProgressBarModel {
        done: 0,
        scale: 1,
        total: None,
        current: 0,
        width: 40,
        bar_style: BarStyle::Block,
        completed_style: named_color_style("green"@),
        remaining_style: named_color_style("bright_black"@),
        pulse_style: named_color_style("cyan"@),
        show_percentage: true,
        show_eta: false,
        show_elapsed: false,
        show_speed: false,
        description: None,
        timed: false,
        show_brackets: true,
        finished_message: None,
        is_finished: false,
    }
}

/// The bar after counting `current` items: the fraction becomes
/// `current / total`, at most one, where the total is positive, and reaching
/// one finishes the bar.
pub open spec fn updated(m: ProgressBarModel, current: nat) -> ProgressBarModel {
    let (done, scale) = match m.total {
        Some(t) => if t > 0 { (if current <= t { current } else { t as nat }, t as nat) } else { (m.done, m.scale) },
        None => (m.done, m.scale),
    };
    ProgressBarModel { current, done, scale, is_finished: m.is_finished || done >= scale, ..m }
}

impl ProgressBar {
    /// A bar with the default settings (see `default_bar_model`).
    pub fn new() -> (b: Self)
        ensures
            b@ == default_bar_model(),
    {
        proof {
            reveal(named_color_style);
        }
        ProgressBar {
            done: 0,
            scale: 1,
            total: None,
            current: 0,
            width: 40,
            bar_style: BarStyle::Block,
            completed_style: with_color_or_default(Style::new(), "green"),
            remaining_style: with_color_or_default(Style::new(), "bright_black"),
            pulse_style: with_color_or_default(Style::new(), "cyan"),
            show_percentage: true,
            show_eta: false,
            show_elapsed: false,
            show_speed: false,
            description: None,
            start_time: None,
            show_brackets: true,
            finished_message: None,
            is_finished: false,
        }
    }

    /// A bar counting towards `total` items, showing the time left and
    /// keeping the time it was made.
    pub fn with_total(total: u64) -> (b: Self)
        ensures
            b@ == (ProgressBarModel { total: Some(total), show_eta: true, timed: true, ..default_bar_model() }),
    {
        let mut b = ProgressBar::new();
        b.total = Some(total);
        b.show_eta = true;
        b.start_time = Some(instant_now());
        b
    }

    /// The bar's width in cells.
    pub fn width(self, width: usize) -> (b: Self)
        ensures
            b@ == (ProgressBarModel { width: width as nat, ..self@ }),
    {
        proof {
            use_type_invariant(&self);
        }
        ProgressBar { width, ..self }
    }

    /// The characters of the bar.
    pub fn bar_style(self, style: BarStyle) -> (b: Self)
        ensures
            b@ == (ProgressBarModel { bar_style: style, ..self@ }),
    {
        proof {
            use_type_invariant(&self);
        }
        ProgressBar { bar_style: style, ..self }
    }

    /// The style of the completed part.
    pub fn completed_style(self, style: Style) -> (b: Self)
        ensures
            b@ == (ProgressBarModel { completed_style: style@, ..self@ }),
    {
        proof {
            use_type_invariant(&self);
        }
        ProgressBar { completed_style: style, ..self }
    }

    /// The style of the remaining part.
    pub fn remaining_style(self, style: Style) -> (b: Self)
        ensures
            b@ == (ProgressBarModel { remaining_style: style@, ..self@ }),
    {
        proof {
            use_type_invariant(&self);
        }
        ProgressBar { remaining_style: style, ..self }
    }

    /// The style of the character at the edge of completion.
    pub fn pulse_style(self, style: Style) -> (b: Self)
        ensures
            b@ == (ProgressBarModel { pulse_style: style@, ..self@ }),
    {
        proof {
            use_type_invariant(&self);
        }
        ProgressBar { pulse_style: style, ..self }
    }

    /// Whether the percentage is shown.
    pub fn show_percentage(self, show: bool) -> (b: Self)
        ensures
            b@ == (ProgressBarModel { show_percentage: show, ..self@ }),
    {
        proof {
            use_type_invariant(&self);
        }
        ProgressBar { show_percentage: show, ..self }
    }

    /// Whether the time left is shown; showing it starts the clock if it
    /// was not running.
    pub fn show_eta(self, show: bool) -> (b: Self)
        ensures
            b@ == (ProgressBarModel { show_eta: show, timed: self@.timed || show, ..self@ }),
    {
        proof {
            use_type_invariant(&self);
        }
        let mut b = ProgressBar { show_eta: show, ..self };
        if show && b.start_time.is_none() {
            b.start_time = Some(instant_now());
        }
        b
    }

    /// Whether the elapsed time is shown; showing it starts the clock if it
    /// was not running.
    pub fn show_elapsed(self, show: bool) -> (b: Self)
        ensures
            b@ == (ProgressBarModel { show_elapsed: show, timed: self@.timed || show, ..self@ }),
    {
        proof {
            use_type_invariant(&self);
        }
        let mut b = ProgressBar { show_elapsed: show, ..self };
        if show && b.start_time.is_none() {
            b.start_time = Some(instant_now());
        }
        b
    }

    /// Whether the speed is shown; showing it starts the clock if it was not
    /// running.
    pub fn show_speed(self, show: bool) -> (b: Self)
        ensures
            b@ == (ProgressBarModel { show_speed: show, timed: self@.timed || show, ..self@ }),
    {
        proof {
            use_type_invariant(&self);
        }
        let mut b = ProgressBar { show_speed: show, ..self };
        if show && b.start_time.is_none() {
            b.start_time = Some(instant_now());
        }
        b
    }

    /// The description shown before the bar.
    pub fn description(self, desc: Text) -> (b: Self)
        ensures
            b@ == (ProgressBarModel { description: Some(desc@), ..self@ }),
    {
        proof {
            use_type_invariant(&self);
        }
        ProgressBar { description: Some(desc), ..self }
    }

    /// Whether the bar is drawn between brackets.
    pub fn show_brackets(self, show: bool) -> (b: Self)
        ensures
            b@ == (ProgressBarModel { show_brackets: show, ..self@ }),
    {
        proof {
            use_type_invariant(&self);
        }
        ProgressBar { show_brackets: show, ..self }
    }

    /// The message shown in place of the bar once it is finished.
    pub fn finished_message(self, msg: &str) -> (b: Self)
        ensures
            b@ == (ProgressBarModel { finished_message: Some(msg@), ..self@ }),
    {
        proof {
            use_type_invariant(&self);
        }
        ProgressBar { finished_message: Some(owned(msg)), ..self }
    }

    /// Set the progress to `numerator / denominator`, at most one; reaching
    /// one finishes the bar.
    pub fn set_progress(&mut self, numerator: u64, denominator: u64)
        requires
            denominator > 0,
        ensures
            final(self)@ == (ProgressBarModel {
                done: if numerator <= denominator { numerator as nat } else { denominator as nat },
                scale: denominator as nat,
                is_finished: old(self)@.is_finished || numerator >= denominator,
                ..old(self)@
            }),
    {
        proof {
            use_type_invariant(&*self);
        }
        self.done = if numerator <= denominator { numerator } else { denominator };
        self.scale = denominator;
        if numerator >= denominator {
            self.is_finished = true;
        }
    }

    /// Count `current` items done (see `updated`).
    pub fn update(&mut self, current: u64)
        ensures
            final(self)@ == updated(old(self)@, current as nat),
    {
        proof {
            use_type_invariant(&*self);
        }
        self.current = current;
        match self.total {
            Some(t) => {
                if t > 0 {
                    self.done = if current <= t { current } else { t };
                    self.scale = t;
                }
            },
            None => {},
        }
        if self.done >= self.scale {
            self.is_finished = true;
        }
    }

    /// Count `delta` more items done.
    pub fn advance(&mut self, delta: u64)
        requires
            old(self)@.current + delta <= u64::MAX,
        ensures
            final(self)@ == updated(old(self)@, (old(self)@.current + delta) as nat),
    {
        proof {
            use_type_invariant(&*self);
        }
        let next = self.current + delta;
        self.update(next);
    }

    /// Finish the bar: all done.
    pub fn finish(&mut self)
        ensures
            final(self)@ == (ProgressBarModel { done: 1, scale: 1, is_finished: true, ..old(self)@ }),
    {
        proof {
            use_type_invariant(&*self);
        }
        self.done = 1;
        self.scale = 1;
        self.is_finished = true;
    }

    /// The progress as the fraction `(numerator, denominator)`.
    pub fn progress(&self) -> (r: (u64, u64))
        ensures
            r.0 == self@.done,
            r.1 == self@.scale,
            r.1 > 0,
    {
        proof {
            use_type_invariant(self);
        }
        (self.done, self.scale)
    }

    /// Whether the bar is finished.
    pub fn is_finished(&self) -> (r: bool)
        ensures
            r == self@.is_finished,
    {
        self.is_finished
    }
}

/// Two decimal digits, with a leading zero below ten.
pub open spec fn two_digits(n: nat) -> Seq<char> {
    if n < 10 { seq!['0'] + decimal(n) } else { decimal(n) }
}

/// A number of seconds as `30s`, `1:30` or `1:01:01`.
pub open spec fn duration_text(secs: nat) -> Seq<char> {
    if secs < 60 {
        decimal(secs) + seq!['s']
    } else if secs < 3600 {
        decimal(secs / 60) + seq![':'] + two_digits(secs % 60)
    } else {
        decimal(secs / 3600) + seq![':'] + two_digits((secs % 3600) / 60) + seq![':'] + two_digits(secs % 60)
    }
}

/// Appends two decimal digits.
fn push_two_digits(s: &mut String, n: u64)
    requires
        n < 100,
    ensures
        final(s)@ == old(s)@ + two_digits(n as nat),
{
    if n < 10 {
        push_char(s, '0');
        push_decimal_u64(s, n);
        assert(final(s)@ =~= old(s)@ + two_digits(n as nat));
    } else {
        push_decimal_u64(s, n);
    }
}

/// A number of seconds as text (see `duration_text`).
pub fn format_duration(secs: u64) -> (s: String)
    ensures
        s@ == duration_text(secs as nat),
{
    let mut s = String::new();
    if secs < 60 {
        push_decimal_u64(&mut s, secs);
        push_char(&mut s, 's');
    } else if secs < 3600 {
        push_decimal_u64(&mut s, secs / 60);
        push_char(&mut s, ':');
        push_two_digits(&mut s, secs % 60);
    } else {
        push_decimal_u64(&mut s, secs / 3600);
        push_char(&mut s, ':');
        push_two_digits(&mut s, (secs % 3600) / 60);
        push_char(&mut s, ':');
        push_two_digits(&mut s, secs % 60);
    }
    assert(s@ =~= duration_text(secs as nat));
    s
}


/// An optional time in nanoseconds, as a number.
pub open spec fn nanos_opt(e: Option<u64>) -> Option<nat> {
    match e {
        Some(n) => Some(n as nat),
        None => None,
    }
}

/// The whole percentage shown: a hundred times the fraction, rounded down,
/// at most `u32::MAX`.
pub open spec fn percent(m: ProgressBarModel) -> nat {
    let p = m.done * 100 / m.scale;
    if p > u32::MAX { u32::MAX as nat } else { p }
}

/// Text right-aligned in three columns.
pub open spec fn right3(s: Seq<char>) -> Seq<char> {
    if s.len() >= 3 { s } else { spaces((3 - s.len()) as nat) + s }
}

/// The time left in nanoseconds, `elapsed` nanoseconds after the start:
/// none without progress, once complete, or before a tenth of a second has
/// passed; else the elapsed time times what is left over what is done.
pub open spec fn eta_nanos(m: ProgressBarModel, elapsed: Option<nat>) -> Option<nat> {
    if m.done == 0 || m.done >= m.scale {
        None
    } else {
        match elapsed {
            Some(e) => if e < MIN_RATE_NANOS { None } else { Some(e * ((m.scale - m.done) as nat) / m.done) },
            None => None,
        }
    }
}

/// The speed for `current` items in `e` nanoseconds: whole items a second
/// (at most `u64::MAX`) from one a second up, else two decimals, rounded to
/// the nearest hundredth.
pub open spec fn speed_text(current: nat, e: nat) -> Seq<char> {
    let per_sec = current * (NANOS_PER_SEC as nat);
    if per_sec >= e {
        let q = per_sec / e;
        decimal(if q > u64::MAX { u64::MAX as nat } else { q }) + seq!['/', 's']
    } else {
        let h = (200 * per_sec + e) / (2 * e);
        decimal(h / 100) + seq!['.'] + two_digits(h % 100) + seq!['/', 's']
    }
}

/// One part where `c` holds, else none.
pub open spec fn part_if(c: bool, p: Seq<char>) -> Seq<Seq<char>> {
    if c { seq![p] } else { Seq::empty() }
}

/// What is shown after the bar, in order: the percentage, the elapsed time,
/// the time left and the speed, each where it is switched on and known.
#[verifier::opaque]
pub open spec fn suffix_parts(m: ProgressBarModel, e: Option<nat>) -> Seq<Seq<char>> {
    part_if(m.show_percentage, right3(decimal(percent(m))).push('%'))
    + part_if(m.show_elapsed && e is Some, duration_text(e->0 / NANOS_PER_SEC as nat))
    + part_if(
        m.show_eta && !m.is_finished && eta_nanos(m, e) is Some,
        seq!['E', 'T', 'A', ' '] + duration_text(eta_nanos(m, e)->0 / NANOS_PER_SEC as nat),
    )
    + part_if(
        m.show_speed && e is Some && e->0 >= MIN_RATE_NANOS,
        speed_text(m.current, e->0),
    )
}

/// The text after the bar: a space, then the parts joined by spaces; empty
/// without parts.
pub open spec fn suffix_text(m: ProgressBarModel, e: Option<nat>) -> Seq<char> {
    let p = suffix_parts(m, e);
    if p.len() == 0 { Seq::empty() } else { seq![' '] + join_with(p, ' ') }
}

/// The time left, where it is shown, is within what a duration can hold.
pub open spec fn eta_in_range(m: ProgressBarModel, e: Option<nat>) -> bool {
    (m.show_eta && !m.is_finished && eta_nanos(m, e) is Some) ==> eta_nanos(m, e)->0 / NANOS_PER_SEC as nat
        <= u64::MAX
}

/// `n`, at most `usize::MAX`.
pub open spec fn capped(n: nat) -> nat {
    if n <= usize::MAX { n } else { usize::MAX as nat }
}

/// The description followed by a space.
pub open spec fn desc_text(d: TextModel) -> Seq<char> {
    d.plain.push(' ')
}

/// The cells the description takes.
pub open spec fn desc_width(m: ProgressBarModel) -> nat {
    match m.description {
        Some(d) => capped(cells(desc_text(d))),
        None => 0,
    }
}

/// The bar's cells in `w` available cells: what the description, the text
/// after the bar and the brackets leave, at most the bar's width.
#[verifier::opaque]
pub open spec fn bar_cells(m: ProgressBarModel, w: nat, e: Option<nat>) -> nat {
    let b = sat_sub(
        sat_sub(sat_sub(w as int, desc_width(m) as int) as int, capped(cells(suffix_text(m, e))) as int) as int,
        if m.show_brackets { 2int } else { 0int },
    );
    if b <= m.width { b } else { m.width }
}

/// `a / b` rounded to the nearest whole number, halves up.
pub open spec fn rounded_ratio(a: nat, b: nat) -> nat {
    a / b + if 2 * (a % b) >= b { 1nat } else { 0nat }
}

/// The completed cells of a bar `bw` cells long: the fraction of it,
/// rounded, at most all of it.
pub open spec fn filled_cells(m: ProgressBarModel, bw: nat) -> nat {
    let r = rounded_ratio(m.done * bw, m.scale);
    if r <= bw { r } else { bw }
}

/// One segment where `c` holds, else none.
pub open spec fn seg_if(c: bool, s: SegmentModel) -> Seq<SegmentModel> {
    if c { seq![s] } else { Seq::empty() }
}

/// The description and its space, in its style.
pub open spec fn desc_segs(m: ProgressBarModel) -> Seq<SegmentModel> {
    match m.description {
        Some(d) => seq![plain_model(desc_text(d), Some(d.style))],
        None => Seq::empty(),
    }
}

/// The cells of a bar `bw` long: the completed run, then the pulse character
/// and the rest where both parts are there, else the remaining run.
pub open spec fn bar_body(m: ProgressBarModel, bw: nat) -> Seq<SegmentModel> {
    let cw = filled_cells(m, bw);
    let rw = (bw - cw) as nat;
    seg_if(cw > 0, plain_model(repeat_seq(completed_glyph(m.bar_style), cw), Some(m.completed_style))) + if cw > 0
        && rw > 0 {
        seq![plain_model(pulse_glyph(m.bar_style), Some(m.pulse_style))] + seg_if(
            rw > 1,
            plain_model(repeat_seq(remaining_glyph(m.bar_style), (rw - 1) as nat), Some(m.remaining_style)),
        )
    } else {
        seg_if(rw > 0, plain_model(repeat_seq(remaining_glyph(m.bar_style), rw), Some(m.remaining_style)))
    }
}

/// A bar rendered in `w` cells, `e` nanoseconds after its start: the
/// finished message with a check mark where there is one and the bar is
/// finished; else the description, then the bar between brackets and the
/// text after it, or only the percentage where fewer than three cells are
/// left for the bar; always ending the line.
#[verifier::opaque]
pub open spec fn bar_segments(m: ProgressBarModel, w: nat, e: Option<nat>) -> Seq<SegmentModel> {
    if m.is_finished && m.finished_message is Some {
        seq![
            plain_model(seq!['\u{2713}', ' '] + m.finished_message->0, Some(named_color_style("green"@))),
            newline_seg(),
        ]
    } else {
        let bw = bar_cells(m, w, e);
        if bw < 3 {
            desc_segs(m) + seg_if(m.show_percentage, plain_model(decimal(percent(m)).push('%'), None)) + seq![
                newline_seg(),
            ]
        } else {
            let suffix = suffix_text(m, e);
            desc_segs(m) + seg_if(m.show_brackets, plain_model(seq!['['], None)) + bar_body(m, bw) + seg_if(
                m.show_brackets,
                plain_model(seq![']'], None),
            ) + seg_if(suffix.len() > 0, plain_model(suffix, None)) + seq![newline_seg()]
        }
    }
}


/// One digit below ten, two below a hundred, three or more from there.
proof fn lemma_decimal_width(n: nat)
    ensures
        n < 10 ==> decimal(n).len() == 1,
        10 <= n < 100 ==> decimal(n).len() == 2,
        n >= 100 ==> decimal(n).len() >= 3,
{
    if n >= 10 {
        assert(decimal(n) == decimal(n / 10).push(crate::text_ops::digit_char(n % 10)));
        if n / 10 >= 10 {
            assert(decimal(n / 10) == decimal(n / 100).push(crate::text_ops::digit_char((n / 10) % 10)));
        }
    }
}

/// Appends a percentage right-aligned in three columns, then `%`.
fn push_percent3(s: &mut String, p: u64)
    ensures
        final(s)@ == old(s)@ + right3(decimal(p as nat)).push('%'),
{
    proof {
        lemma_decimal_width(p as nat);
    }
    let ghost before = s@;
    if p < 10 {
        push_char(s, ' ');
        push_char(s, ' ');
    } else if p < 100 {
        push_char(s, ' ');
    }
    let ghost pad = s@;
    push_decimal_u64(s, p);
    push_char(s, '%');
    proof {
        if p < 10 {
            assert(spaces(2) =~= seq![' ', ' ']);
            assert(pad =~= before + spaces(2));
        } else if p < 100 {
            assert(spaces(1) =~= seq![' ']);
            assert(pad =~= before + spaces(1));
        } else {
            assert(pad =~= before);
        }
        assert(s@ =~= before + right3(decimal(p as nat)).push('%'));
    }
}

/// The speed for `current` items in `e` nanoseconds (see `speed_text`).
fn speed_string(current: u64, e: u64) -> (s: String)
    requires
        e >= MIN_RATE_NANOS,
    ensures
        s@ == speed_text(current as nat, e as nat),
{
    let per_sec: u128 = (current as u128) * (NANOS_PER_SEC as u128);
    let mut s = String::new();
    if per_sec >= e as u128 {
        let q = per_sec / (e as u128);
        let shown: u64 = if q > u64::MAX as u128 { u64::MAX } else { q as u64 };
        push_decimal_u64(&mut s, shown);
    } else {
        let h = (200 * per_sec + e as u128) / (2 * (e as u128));
        assert(h <= 100) by (nonlinear_arith)
            requires per_sec < e, h == (200 * per_sec + e) / (2 * e), e > 0;
        push_decimal_u64(&mut s, (h / 100) as u64);
        push_char(&mut s, '.');
        push_two_digits(&mut s, (h % 100) as u64);
    }
    push_char(&mut s, '/');
    push_char(&mut s, 's');
    assert(s@ =~= speed_text(current as nat, e as nat));
    s
}

impl ProgressBar {
    /// The whole percentage shown (see `percent`).
    fn percent_value(&self) -> (p: u64)
        ensures
            p == percent(self@),
    {
        proof {
            use_type_invariant(self);
        }
        let x = (self.done as u128) * 100 / (self.scale as u128);
        if x > u32::MAX as u128 {
            u32::MAX as u64
        } else {
            x as u64
        }
    }

    /// The time left in nanoseconds, `elapsed` nanoseconds after the start
    /// (see `eta_nanos`).
    pub fn eta_at(&self, elapsed: Option<u64>) -> (r: Option<u128>)
        ensures
            match eta_nanos(self@, nanos_opt(elapsed)) {
                Some(n) => r matches Some(x) && x == n,
                None => r is None,
            },
    {
        proof {
            use_type_invariant(self);
        }
        if self.done == 0 || self.done >= self.scale {
            return None;
        }
        match elapsed {
            Some(e) => {
                if e < MIN_RATE_NANOS {
                    None
                } else {
                    let left = (self.scale - self.done) as u128;
                    assert((e as u128) * left <= u64::MAX * u64::MAX) by (nonlinear_arith)
                        requires e <= u64::MAX, left <= u64::MAX;
                    let n = (e as u128) * left / (self.done as u128);
                    assert(n <= (e as u128) * left) by (nonlinear_arith)
                        requires n == (e * left) / (self.done as int), self.done >= 1;
                    Some(n)
                }
            },
            None => None,
        }
    }

    /// The text after the bar, `elapsed` nanoseconds after the start (see
    /// `suffix_text`).
    fn suffix_string(&self, elapsed: Option<u64>) -> (s: String)
        requires
            eta_in_range(self@, nanos_opt(elapsed)),
        ensures
            s@ == suffix_text(self@, nanos_opt(elapsed)),
    {
        let ghost m = self@;
        let ghost e = nanos_opt(elapsed);
        let mut parts: Vec<String> = Vec::new();
        if self.show_percentage {
            let mut p = String::new();
            push_percent3(&mut p, self.percent_value());
            parts.push(p);
        }
        let ghost a = part_if(m.show_percentage, right3(decimal(percent(m))).push('%'));
        assert(views(parts@) =~= a);
        if self.show_elapsed {
            match elapsed {
                Some(n) => {
                    parts.push(format_duration(n / NANOS_PER_SEC));
                },
                None => {},
            }
        }
        let ghost b = part_if(m.show_elapsed && e is Some, duration_text(e->0 / NANOS_PER_SEC as nat));
        assert(views(parts@) =~= a + b);
        if self.show_eta && !self.is_finished {
            match self.eta_at(elapsed) {
                Some(n) => {
                    proof {
                        reveal_strlit("ETA ");
                        assert("ETA "@ =~= seq!['E', 'T', 'A', ' ']);
                    }
                    let mut t = owned("ETA ");
                    let secs = n / (NANOS_PER_SEC as u128);
                    assert(secs == eta_nanos(m, e)->0 / NANOS_PER_SEC as nat);
                    push_str(&mut t, format_duration(secs as u64).as_str());
                    assert(t@ =~= seq!['E', 'T', 'A', ' '] + duration_text(eta_nanos(m, e)->0 / NANOS_PER_SEC as nat));
                    parts.push(t);
                },
                None => {},
            }
        }
        let ghost c = part_if(
            m.show_eta && !m.is_finished && eta_nanos(m, e) is Some,
            seq!['E', 'T', 'A', ' '] + duration_text(eta_nanos(m, e)->0 / NANOS_PER_SEC as nat),
        );
        assert(views(parts@) =~= a + b + c);
        if self.show_speed {
            match elapsed {
                Some(n) => {
                    if n >= MIN_RATE_NANOS {
                        parts.push(speed_string(self.current, n));
                    }
                },
                None => {},
            }
        }
        let ghost d = part_if(m.show_speed && e is Some && e->0 >= MIN_RATE_NANOS, speed_text(m.current, e->0));
        assert(views(parts@) =~= a + b + c + d);
        assert(views(parts@) == suffix_parts(m, e)) by {
            reveal(suffix_parts);
        }
        if parts.len() == 0 {
            assert(suffix_text(m, e) =~= Seq::<char>::empty());
            return String::new();
        }
        let mut s = String::new();
        push_char(&mut s, ' ');
        let joined = join_strings(&parts, ' ');
        push_str(&mut s, joined.as_str());
        assert(s@ =~= suffix_text(m, e));
        s
    }

    /// The completed cells of a bar `bw` cells long (see `filled_cells`).
    fn filled(&self, bw: usize) -> (cw: usize)
        ensures
            cw == filled_cells(self@, bw as nat),
    {
        proof {
            use_type_invariant(self);
        }
        let d = self.done as u128;
        let sc = self.scale as u128;
        let w = bw as u128;
        if self.done >= self.scale {
            proof {
                assert((d * w) / (sc as int) >= w) by (nonlinear_arith)
                    requires d >= sc, sc > 0, w >= 0;
            }
            bw
        } else {
            assert(d * w < sc * w || w == 0) by (nonlinear_arith)
                requires d < sc, w >= 0;
            assert(d * w <= u64::MAX * u64::MAX) by (nonlinear_arith)
                requires d <= u64::MAX, w <= u64::MAX;
            let x = d * w;
            let q = x / sc;
            let r = x % sc;
            assert(q < w || w == 0) by (nonlinear_arith)
                requires x < sc * w || w == 0, q == (x as int) / (sc as int), sc > 0;
            assert(w == 0 ==> q == 0 && r == 0) by (nonlinear_arith)
                requires x == d * w, q == (x as int) / (sc as int), r == (x as int) % (sc as int), sc > 0;
            let c = if 2 * r >= sc { q + 1 } else { q };
            assert(c == rounded_ratio(self@.done * (bw as nat), self@.scale));
            assert(c <= w);
            c as usize
        }
    }
}


impl ProgressBar {
    /// Appends the cells of the bar, `bw` long (see `bar_body`).
    fn push_bar_body(&self, segs: &mut Vec<Segment>, bw: usize)
        ensures
            segs_model(final(segs)@) == segs_model(old(segs)@) + bar_body(self@, bw as nat),
    {
        let ghost m = self@;
        let ghost start = segs_model(segs@);
        let cw = self.filled(bw);
        let rw = bw - cw;
        if cw > 0 {
            let run = repeat_str(self.bar_style.completed_char(), cw);
            push_seg(segs, Segment::new(run.as_str(), Some(self.completed_style.clone())));
        }
        let ghost head = seg_if(
            cw > 0,
            plain_model(repeat_seq(completed_glyph(m.bar_style), cw as nat), Some(m.completed_style)),
        );
        assert(segs_model(segs@) =~= start + head);
        if cw > 0 && rw > 0 {
            push_seg(segs, Segment::new(self.bar_style.pulse_char(), Some(self.pulse_style.clone())));
            if rw > 1 {
                let run = repeat_str(self.bar_style.remaining_char(), rw - 1);
                push_seg(segs, Segment::new(run.as_str(), Some(self.remaining_style.clone())));
            }
        } else if rw > 0 {
            let run = repeat_str(self.bar_style.remaining_char(), rw);
            push_seg(segs, Segment::new(run.as_str(), Some(self.remaining_style.clone())));
        }
        assert(segs_model(segs@) =~= start + bar_body(m, bw as nat));
    }

    /// The bar rendered in `available_width` cells, `elapsed` nanoseconds
    /// after its start, or with no time known (see `bar_segments`).
    pub fn render_at(&self, available_width: usize, elapsed: Option<u64>) -> (r: Vec<Segment>)
        requires
            eta_in_range(self@, nanos_opt(elapsed)),
        ensures
            segs_model(r@) == bar_segments(self@, available_width as nat, nanos_opt(elapsed)),
    {
        let ghost m = self@;
        let ghost e = nanos_opt(elapsed);
        let mut segs: Vec<Segment> = Vec::new();
        if self.is_finished {
            match &self.finished_message {
                Some(msg) => {
                    proof {
                        reveal_strlit("\u{2713} ");
                        reveal_strlit("green");
                    }
                    assert("\u{2713} "@ =~= seq!['\u{2713}', ' ']);
                    let mut t = owned("\u{2713} ");
                    push_str(&mut t, msg.as_str());
                    assert(t@ =~= seq!['\u{2713}', ' '] + m.finished_message->0);
                    let green = with_color_or_default(Style::new(), "green");
                    assert(green@ == named_color_style("green"@)) by {
                        reveal(named_color_style);
                    }
                    push_seg(&mut segs, Segment::new(t.as_str(), Some(green)));
                    push_seg(&mut segs, Segment::line());
                    assert(segs_model(segs@) =~= bar_segments(m, available_width as nat, e)) by {
                        reveal(bar_segments);
                    }
                    return segs;
                },
                None => {},
            }
        }
        let r = self.render_running(available_width, elapsed);
        assert(segs_model(segs@) =~= Seq::<SegmentModel>::empty());
        r
    }
}


impl ProgressBar {
    /// The bar rendered while it shows no finished message (see
    /// `bar_segments`).
    fn render_running(&self, available_width: usize, elapsed: Option<u64>) -> (r: Vec<Segment>)
        requires
            eta_in_range(self@, nanos_opt(elapsed)),
            !(self@.is_finished && self@.finished_message is Some),
        ensures
            segs_model(r@) == bar_segments(self@, available_width as nat, nanos_opt(elapsed)),
    {
        let ghost m = self@;
        let ghost e = nanos_opt(elapsed);
        let mut segs: Vec<Segment> = Vec::new();
        match &self.description {
            Some(d) => {
                let mut t = owned(d.plain());
                push_char(&mut t, ' ');
                push_seg(&mut segs, Segment::new(t.as_str(), Some(d.style().clone())));
            },
            None => {},
        }
        assert(segs_model(segs@) =~= desc_segs(m));
        let (suffix, bw) = self.layout(available_width, elapsed);
        assert(bw == bar_cells(m, available_width as nat, e));
        if bw < 3 {
            if self.show_percentage {
                let mut t = String::new();
                push_decimal_u64(&mut t, self.percent_value());
                push_char(&mut t, '%');
                push_seg(&mut segs, Segment::new(t.as_str(), None));
            }
            push_seg(&mut segs, Segment::line());
            assert(segs_model(segs@) =~= bar_segments(m, available_width as nat, e)) by {
                reveal(bar_segments);
            }
            return segs;
        }
        if self.show_brackets {
            proof {
                reveal_strlit("[");
                assert("["@ =~= seq!['[']);
            }
            push_seg(&mut segs, Segment::new("[", None));
        }
        let ghost opened = segs_model(segs@);
        assert(opened =~= desc_segs(m) + seg_if(m.show_brackets, plain_model(seq!['['], None)));
        self.push_bar_body(&mut segs, bw);
        let ghost body = segs_model(segs@);
        if self.show_brackets {
            proof {
                reveal_strlit("]");
                assert("]"@ =~= seq![']']);
            }
            push_seg(&mut segs, Segment::new("]", None));
        }
        let ghost closed = segs_model(segs@);
        assert(closed =~= body + seg_if(m.show_brackets, plain_model(seq![']'], None)));
        let shown = suffix.as_str().unicode_len() > 0;
        if shown {
            push_seg(&mut segs, Segment::new(suffix.as_str(), None));
        }
        let ghost tail = segs_model(segs@);
        assert(tail =~= closed + seg_if(suffix@.len() > 0, plain_model(suffix@, None)));
        push_seg(&mut segs, Segment::line());
        assert(segs_model(segs@) =~= tail + seq![newline_seg()]);
        assert(segs_model(segs@) =~= bar_segments(m, available_width as nat, e)) by {
            reveal(bar_segments);
        }
        segs
    }
}

impl ProgressBar {
    /// The text after the bar and the bar's cells in `available_width`
    /// cells (see `suffix_text` and `bar_cells`).
    fn layout(&self, available_width: usize, elapsed: Option<u64>) -> (r: (String, usize))
        requires
            eta_in_range(self@, nanos_opt(elapsed)),
        ensures
            r.0@ == suffix_text(self@, nanos_opt(elapsed)),
            r.1 == bar_cells(self@, available_width as nat, nanos_opt(elapsed)),
    {
        let ghost m = self@;
        let used: usize = match &self.description {
            Some(d) => {
                let mut t = owned(d.plain());
                push_char(&mut t, ' ');
                cell_len_saturating(t.as_str())
            },
            None => 0,
        };
        assert(used == desc_width(m));
        let suffix = self.suffix_string(elapsed);
        let suffix_width = cell_len_saturating(suffix.as_str());
        let brackets: usize = if self.show_brackets { 2 } else { 0 };
        let room = available_width.saturating_sub(used).saturating_sub(suffix_width).saturating_sub(brackets);
        let bw = if room <= self.width { room } else { self.width };
        proof {
            reveal(bar_cells);
        }
        (suffix, bw)
    }
}

/// The speed for `current` items after an elapsed time reading: the items
/// over the nanoseconds, where at least a tenth of a second has passed.
pub open spec fn speed_of(current: nat, elapsed: Option<u64>) -> Option<(u64, u64)> {
    match elapsed {
        Some(n) => if n >= MIN_RATE_NANOS { Some((current as u64, n)) } else { None },
        None => None,
    }
}

impl ProgressBar {
    /// The time since the start in nanoseconds, at most `u64::MAX`, where the
    /// bar keeps a start time.
    pub fn elapsed(&self) -> (r: Option<u64>)
        ensures
            r is Some <==> self@.timed,
    {
        match &self.start_time {
            Some(t) => {
                let d = time_since(t);
                let n = duration_nanos(&d);
                Some(if n > u64::MAX as u128 { u64::MAX } else { n as u64 })
            },
            None => None,
        }
    }

    /// Whether the time left, where it is shown, is within what a duration
    /// can hold (see `eta_in_range`).
    fn eta_fits(&self, elapsed: Option<u64>) -> (r: bool)
        ensures
            r == eta_in_range(self@, nanos_opt(elapsed)),
    {
        if self.show_eta && !self.is_finished {
            match self.eta_at(elapsed) {
                Some(n) => n / (NANOS_PER_SEC as u128) <= u64::MAX as u128,
                None => true,
            }
        } else {
            true
        }
    }

    /// The time left in nanoseconds, read from the clock: what `eta_at`
    /// gives for some reading, which there is where the bar keeps a start
    /// time.
    pub fn eta(&self) -> (r: Option<u128>)
        ensures
            exists|e: Option<u64>|
                (e is Some <==> self@.timed) && match #[trigger] eta_nanos(self@, nanos_opt(e)) {
                    Some(n) => r matches Some(x) && x == n,
                    None => r is None,
                },
    {
        let e = self.elapsed();
        self.eta_at(e)
    }

    /// The speed as the fraction items over nanoseconds, read from the
    /// clock: what `speed_of` gives for a reading, which there is where the
    /// bar keeps a start time.
    pub fn speed(&self) -> (r: Option<(u64, u64)>)
        ensures
            exists|e: Option<u64>| (e is Some <==> self@.timed) && r == #[trigger] speed_of(self@.current, e),
    {
        let e = self.elapsed();
        let r = match e {
            Some(n) => {
                if n < MIN_RATE_NANOS {
                    None
                } else {
                    Some((self.current, n))
                }
            },
            None => None,
        };
        assert(r == speed_of(self@.current, e));
        r
    }

    /// The bar rendered in `available_width` cells at the current time:
    /// what `render_at` gives for a clock reading, or `None` where the time
    /// left shown would be beyond what a duration can hold.
    pub fn render(&self, available_width: usize) -> (r: Option<Vec<Segment>>)
        ensures
            exists|e: Option<u64>|
                (e is Some <==> self@.timed) && match r {
                    Some(v) => #[trigger] eta_in_range(self@, nanos_opt(e)) && segs_model(v@) == bar_segments(
                        self@,
                        available_width as nat,
                        nanos_opt(e),
                    ),
                    None => !eta_in_range(self@, nanos_opt(e)),
                },
    {
        let e = self.elapsed();
        if self.eta_fits(e) {
            Some(self.render_at(available_width, e))
        } else {
            None
        }
    }

    /// The text of the bar rendered in `width` cells at the current time
    /// (see `render`).
    pub fn render_plain(&self, width: usize) -> (r: Option<String>)
        ensures
            exists|e: Option<u64>|
                (e is Some <==> self@.timed) && match r {
                    Some(s) => #[trigger] eta_in_range(self@, nanos_opt(e)) && s@ == texts(
                        bar_segments(self@, width as nat, nanos_opt(e)),
                    ),
                    None => !eta_in_range(self@, nanos_opt(e)),
                },
    {
        let e = self.elapsed();
        if self.eta_fits(e) {
            let segs = self.render_at(width, e);
            Some(segments_text(&segs))
        } else {
            None
        }
    }
}

/// A bar drawn with `#`, `>` and `-`.
pub fn ascii_bar() -> (b: ProgressBar)
    ensures
        b@ == (ProgressBarModel { bar_style: BarStyle::Ascii, ..default_bar_model() }),
{
    ProgressBar::new().bar_style(BarStyle::Ascii)
}

/// A bar drawn with thin lines.
pub fn line_bar() -> (b: ProgressBar)
    ensures
        b@ == (ProgressBarModel { bar_style: BarStyle::Line, ..default_bar_model() }),
{
    ProgressBar::new().bar_style(BarStyle::Line)
}

/// A bar drawn with dots.
pub fn dots_bar() -> (b: ProgressBar)
    ensures
        b@ == (ProgressBarModel { bar_style: BarStyle::Dots, ..default_bar_model() }),
{
    ProgressBar::new().bar_style(BarStyle::Dots)
}

/// A bar drawn with shaded blocks.
pub fn gradient_bar() -> (b: ProgressBar)
    ensures
        b@ == (ProgressBarModel { bar_style: BarStyle::Gradient, ..default_bar_model() }),
{
    ProgressBar::new().bar_style(BarStyle::Gradient)
}

/// Law: counting in two steps ends where counting the sum at once does.
pub proof fn law_update_steps_compose(m: ProgressBarModel, a: nat, b: nat)
    requires
        a <= b,
        m.scale > 0,
    ensures
        updated(updated(m, a), b) == updated(m, b),
{
}

/// The completed part of a bar is the whole number of cells nearest to the
/// completed fraction of its length: it is never longer than the bar, and it
/// is off by at most half a cell.
pub proof fn law_filled_cells_nearest(m: ProgressBarModel, bw: nat)
    requires
        m.scale > 0,
        m.done <= m.scale,
    ensures
        filled_cells(m, bw) <= bw,
        2 * (filled_cells(m, bw) * m.scale - m.done * bw) <= m.scale,
        2 * (m.done * bw - filled_cells(m, bw) * m.scale) <= m.scale,
{
    let a = m.done * bw;
    let b = m.scale;
    let q = a / b;
    let rem = a % b;
    assert(a == q * b + rem && 0 <= rem < b) by (nonlinear_arith)
        requires b > 0, q == a / b, rem == a % b;
    assert(a <= b * bw) by (nonlinear_arith)
        requires a == m.done * bw, m.done <= b;
    assert(q <= bw) by (nonlinear_arith)
        requires a == q * b + rem, 0 <= rem, a <= b * bw, b > 0;
    assert(q == bw ==> rem == 0) by (nonlinear_arith)
        requires a == q * b + rem, 0 <= rem, a <= b * bw, b > 0;
    let r = rounded_ratio(a, b);
    assert(r == q + if 2 * rem >= b { 1nat } else { 0nat });
    assert(r * b == q * b + if 2 * rem >= b { b } else { 0nat }) by (nonlinear_arith)
        requires r == q + if 2 * rem >= b { 1nat } else { 0nat };
}

/// The percentage shown is the completed fraction times a hundred, rounded
/// down (where it fits the counter).
pub proof fn law_percent_floor(m: ProgressBarModel)
    requires
        m.scale > 0,
        m.done * 100 / m.scale <= u32::MAX,
    ensures
        percent(m) * m.scale <= m.done * 100 < (percent(m) + 1) * m.scale,
{
    let a = m.done * 100;
    let p = a / m.scale;
    assert(p * m.scale <= a < (p + 1) * m.scale) by (nonlinear_arith)
        requires m.scale > 0, p == a / m.scale;
}

} // verus!
