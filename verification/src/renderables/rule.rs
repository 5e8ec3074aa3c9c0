//! Rule - horizontal line with optional title.
//!
//! A Rule renders as a horizontal line that spans the given width, optionally
//! with a title placed at the left, center or right.
use vstd::prelude::*;
use crate::cells::{cell_len, cells};
use crate::text::JustifyMethod;
use crate::segment::{line_cells, lemma_line_cells_push, plain_model, seg_cells, segs_model, Segment, SegmentModel};
use crate::style::{Style, StyleModel};
use crate::text_ops::{owned, push_str, repeat_seq, repeat_str};

verus! {

/// A horizontal rule with optional title.
#[derive(Debug)]
pub struct Rule {
    /// Optional title text.
    title: Option<String>,
    /// Style of the title.
    title_style: Style,
    /// Character to use for the rule line.
    character: String,
    /// Style for the rule line.
    style: Style,
    /// Title alignment.
    align: JustifyMethod,
}

/// The value of a rule.
pub struct RuleModel {
    pub title: Option<Seq<char>>,
    pub title_style: StyleModel,
    pub character: Seq<char>,
    pub style: StyleModel,
    pub align: JustifyMethod,
}

impl View for Rule {
    type V = RuleModel;

    closed spec fn view(&self) -> RuleModel {
        RuleModel {
            title: match self.title { Some(t) => Some(t@), None => None },
            title_style: self.title_style@,
            character: self.character@,
            style: self.style@,
            align: self.align,
        }
    }
}

/// The default rule: no title, a light horizontal line character, a plain
/// style, centered.
pub open spec fn default_rule() -> RuleModel {
    RuleModel {
        title: None,
        title_style: crate::style::empty_style_model(true),
        character: seq!['\u{2500}'],
        style: crate::style::empty_style_model(false),
        align: JustifyMethod::Center,
    }
}

impl Default for Rule {
    fn default() -> (r: Self)
        ensures
            r@ == default_rule(),
    {
        let r = Rule {
            title: None,
            title_style: Style::null(),
            character: owned("\u{2500}"),
            style: Style::new(),
            align: JustifyMethod::Center,
        };
        proof {
            reveal_strlit("\u{2500}");
            assert("\u{2500}"@ =~= seq!['\u{2500}']);
        }
        r
    }
}

/// The newline segment that ends a rendered rule.
pub open spec fn newline_seg() -> SegmentModel {
    plain_model(seq!['\n'], None)
}

/// The title with a space on each side.
pub open spec fn title_text(t: Seq<char>) -> Seq<char> {
    seq![' '] + t + seq![' ']
}

/// How many rule characters go left and right of the title.
pub open spec fn rule_split(align: JustifyMethod, n: nat) -> (nat, nat) {
    match align {
        JustifyMethod::Left | JustifyMethod::Default => (1, (n - 1) as nat),
        JustifyMethod::Right => ((n - 1) as nat, 1),
        _ => (n / 2, (n - n / 2) as nat),
    }
}

/// The segments of a rule rendered at `width` cells: as many rule characters
/// as fit, with the title (spaced) in place when there is room for at least
/// two rule characters beside it, then a newline. A zero width or a zero-width
/// character gives only the newline.
pub open spec fn render_spec(r: RuleModel, width: nat) -> Seq<SegmentModel> {
    let cw = cells(r.character);
    if cw == 0 || width == 0 {
        seq![newline_seg()]
    } else {
        match r.title {
            Some(t) => {
                let tt = title_text(t);
                let available = if width > cells(tt) { (width - cells(tt)) as nat } else { 0 };
                let n = available / cw;
                if n < 2 {
                    seq![plain_model(tt, Some(r.title_style)), newline_seg()]
                } else {
                    let (left, right) = rule_split(r.align, n);
                    seq![
                        plain_model(repeat_seq(r.character, left), Some(r.style)),
                        plain_model(tt, Some(r.title_style)),
                        plain_model(repeat_seq(r.character, right), Some(r.style)),
                        newline_seg(),
                    ]
                }
            },
            None => seq![plain_model(repeat_seq(r.character, width / cw), Some(r.style)), newline_seg()],
        }
    }
}

/// The texts of segments, one after another.
pub open spec fn texts(segs: Seq<SegmentModel>) -> Seq<char>
    decreases segs.len(),
{
    if segs.len() == 0 { Seq::empty() } else { texts(segs.drop_last()) + segs.last().text }
}

/// The texts of segments joined in order (see `texts`).
pub(crate) fn segments_text(segs: &Vec<Segment>) -> (s: String)
    ensures
        s@ == texts(segs_model(segs@)),
{
    let ghost m = segs_model(segs@);
    let mut s = String::new();
    let mut i: usize = 0;
    while i < segs.len()
        invariant
            i <= segs@.len(),
            m == segs_model(segs@),
            s@ == texts(m.take(i as int)),
        decreases segs.len() - i,
    {
        proof {
            assert(m.take(i + 1).drop_last() =~= m.take(i as int));
            assert(m[i as int] == segs@[i as int]@);
        }
        push_str(&mut s, segs[i].text.as_str());
        i += 1;
    }
    assert(m.take(m.len() as int) =~= m);
    s
}

/// The widths a rule can be rendered with: its character and title must have
/// a width the machine can count.
pub open spec fn rule_fits(r: RuleModel) -> bool {
    &&& cells(r.character) <= usize::MAX
    &&& (r.title matches Some(t) ==> cells(title_text(t)) <= usize::MAX)
}

impl Rule {
    /// Create a new rule without a title.
    pub fn new() -> (r: Self)
        ensures
            r@ == default_rule(),
    {
        Rule::default()
    }

    /// Create a rule with a title.
    pub fn with_title(title: &str) -> (r: Self)
        ensures
            r@ == (RuleModel { title: Some(title@), ..default_rule() }),
    {
        let d = Rule::default();
        Rule { title: Some(owned(title)), ..d }
    }

    /// Set the rule character.
    pub fn character(self, ch: &str) -> (r: Self)
        ensures
            r@ == (RuleModel { character: ch@, ..self@ }),
    {
        Rule { character: owned(ch), ..self }
    }

    /// Set the rule style.
    pub fn style(self, style: Style) -> (r: Self)
        ensures
            r@ == (RuleModel { style: style@, ..self@ }),
    {
        Rule { style, ..self }
    }

    /// Set title alignment.
    pub fn align(self, align: JustifyMethod) -> (r: Self)
        ensures
            r@ == (RuleModel { align, ..self@ }),
    {
        Rule { align, ..self }
    }

    /// Left-align the title.
    pub fn align_left(self) -> (r: Self)
        ensures
            r@ == (RuleModel { align: JustifyMethod::Left, ..self@ }),
    {
        self.align(JustifyMethod::Left)
    }

    /// Center the title.
    pub fn align_center(self) -> (r: Self)
        ensures
            r@ == (RuleModel { align: JustifyMethod::Center, ..self@ }),
    {
        self.align(JustifyMethod::Center)
    }

    /// Right-align the title.
    pub fn align_right(self) -> (r: Self)
        ensures
            r@ == (RuleModel { align: JustifyMethod::Right, ..self@ }),
    {
        self.align(JustifyMethod::Right)
    }

    /// Render the rule to segments for a given width.
    pub fn render(&self, width: usize) -> (v: Vec<Segment>)
        requires
            rule_fits(self@),
        ensures
            segs_model(v@) == render_spec(self@, width as nat),
    {
        let char_width = cell_len(self.character.as_str());
        let mut segments: Vec<Segment> = Vec::new();
        if char_width == 0 || width == 0 {
            let nl = Segment::line();
            segments.push(nl);
            assert(segs_model(segments@) =~= render_spec(self@, width as nat));
            return segments;
        }
        match &self.title {
            Some(title) => {
                let mut tt = owned(" ");
                push_str(&mut tt, title.as_str());
                push_str(&mut tt, " ");
                proof {
                    reveal_strlit(" ");
                    assert(tt@ =~= title_text(title@));
                }
                let title_width = cell_len(tt.as_str());
                let available = if width > title_width { width - title_width } else { 0 };
                let rule_chars = available / char_width;
                if rule_chars < 2 {
                    let s1 = Segment::new(tt.as_str(), Some(self.title_style.clone()));
                    segments.push(s1);
                } else {
                    let (left_count, right_count) = match self.align {
                        JustifyMethod::Left | JustifyMethod::Default => (1, rule_chars - 1),
                        JustifyMethod::Right => (rule_chars - 1, 1),
                        _ => (rule_chars / 2, rule_chars - rule_chars / 2),
                    };
                    let left_rule = repeat_str(self.character.as_str(), left_count);
                    let s1 = Segment::new(left_rule.as_str(), Some(self.style.clone()));
                    segments.push(s1);
                    let s2 = Segment::new(tt.as_str(), Some(self.title_style.clone()));
                    segments.push(s2);
                    let right_rule = repeat_str(self.character.as_str(), right_count);
                    let s3 = Segment::new(right_rule.as_str(), Some(self.style.clone()));
                    segments.push(s3);
                }
            },
            None => {
                let count = width / char_width;
                let rule_text = repeat_str(self.character.as_str(), count);
                let s1 = Segment::new(rule_text.as_str(), Some(self.style.clone()));
                segments.push(s1);
            },
        }
        let nl = Segment::line();
        segments.push(nl);
        assert(segs_model(segments@) =~= render_spec(self@, width as nat));
        segments
    }

    /// Render the rule as a string: the texts of its segments.
    pub fn render_plain(&self, width: usize) -> (s: String)
        requires
            rule_fits(self@),
        ensures
            s@ == texts(render_spec(self@, width as nat)),
    {
        let segs = self.render(width);
        let ghost m = segs_model(segs@);
        let mut s = String::new();
        let mut i: usize = 0;
        while i < segs.len()
            invariant
                i <= segs@.len(),
                m == segs_model(segs@),
                s@ == texts(m.take(i as int)),
            decreases segs.len() - i,
        {
            proof {
                assert(m.take(i + 1).drop_last() =~= m.take(i as int));
                assert(m[i as int] == segs@[i as int]@);
            }
            push_str(&mut s, segs[i].text.as_str());
            i += 1;
        }
        assert(m.take(m.len() as int) =~= m);
        s
    }
}

/// Create an ASCII-safe rule.
pub fn ascii_rule() -> (r: Rule)
    ensures
        r@ == (RuleModel { character: seq!['-'], ..default_rule() }),
{
    let r = Rule::new().character("-");
    proof {
        reveal_strlit("-");
        assert("-"@ =~= seq!['-']);
    }
    r
}

/// Create a double-line rule.
pub fn double_rule() -> (r: Rule)
    ensures
        r@ == (RuleModel { character: seq!['\u{2550}'], ..default_rule() }),
{
    let r = Rule::new().character("\u{2550}");
    proof {
        reveal_strlit("\u{2550}");
        assert("\u{2550}"@ =~= seq!['\u{2550}']);
    }
    r
}

/// Create a heavy (thick) rule.
pub fn heavy_rule() -> (r: Rule)
    ensures
        r@ == (RuleModel { character: seq!['\u{2501}'], ..default_rule() }),
{
    let r = Rule::new().character("\u{2501}");
    proof {
        reveal_strlit("\u{2501}");
        assert("\u{2501}"@ =~= seq!['\u{2501}']);
    }
    r
}

/// `n` copies of a text are `n` times as wide.
pub proof fn lemma_repeat_cells(t: Seq<char>, n: nat)
    ensures
        cells(repeat_seq(t, n)) == n * cells(t),
    decreases n,
{
    if n > 0 {
        lemma_repeat_cells(t, (n - 1) as nat);
        crate::cells::lemma_cells_concat(repeat_seq(t, (n - 1) as nat), t);
        assert(n * cells(t) == (n - 1) * cells(t) + cells(t)) by (nonlinear_arith)
            requires n > 0;
    } else {
        assert(n * cells(t) == 0) by (nonlinear_arith)
            requires n == 0;
    }
}

/// A rule drawn with a one-cell character spans the whole width: with no
/// title, or with a title that leaves room for two rule characters.
pub proof fn law_rule_spans_width(r: RuleModel, width: nat)
    requires
        cells(r.character) == 1,
        width > 0,
        r.title matches Some(t) ==> cells(title_text(t)) + 2 <= width,
    ensures
        line_cells(render_spec(r, width).drop_last()) == width,
{
    let segs = render_spec(r, width);
    match r.title {
        None => {
            assert(width / 1 == width);
            lemma_repeat_cells(r.character, width);
            assert(width * 1 == width);
            assert(segs.drop_last() =~= Seq::<SegmentModel>::empty().push(segs[0]));
            lemma_line_cells_push(Seq::empty(), segs[0]);
        },
        Some(t) => {
            let tt = title_text(t);
            let n = (width - cells(tt)) as nat;
            assert(n / 1 == n);
            assert(render_spec(r, width) == seq![
                plain_model(repeat_seq(r.character, rule_split(r.align, n).0), Some(r.style)),
                plain_model(tt, Some(r.title_style)),
                plain_model(repeat_seq(r.character, rule_split(r.align, n).1), Some(r.style)),
                newline_seg(),
            ]);
            let (left, right) = rule_split(r.align, n);
            assert(left + right == n);
            lemma_repeat_cells(r.character, left);
            lemma_repeat_cells(r.character, right);
            assert(left * 1 == left && right * 1 == right);
            let a = Seq::<SegmentModel>::empty().push(segs[0]);
            let b = a.push(segs[1]);
            let c = b.push(segs[2]);
            assert(segs.drop_last() =~= c);
            lemma_line_cells_push(Seq::empty(), segs[0]);
            lemma_line_cells_push(a, segs[1]);
            lemma_line_cells_push(b, segs[2]);
        },
    }
}

/// How rule characters beside a title are placed: all `n` are used; a left
/// (or default) title has one before it, a right one one after it, and a
/// centered (or fully justified) one sits in the middle, the odd one after.
pub open spec fn title_placed(align: JustifyMethod, before: nat, after: nat, n: nat) -> bool {
    &&& before + after == n
    &&& (align is Left || align is Default) ==> before == 1
    &&& align is Right ==> after == 1
    &&& (align is Center || align is Full) ==> before <= after <= before + 1
}

/// How many rule characters fit beside a rule's spaced title at `width`.
pub open spec fn title_room(r: RuleModel, width: nat) -> nat {
    let tt = title_text(r.title->0);
    (if width > cells(tt) { (width - cells(tt)) as nat } else { 0nat }) / cells(r.character)
}

/// A rule with room for at least two rule characters beside its title draws
/// the title between two runs of the rule character, placed by the rule's
/// alignment; a right-aligned title mirrors a left-aligned one.
pub proof fn law_rule_title_placement(r: RuleModel, width: nat)
    requires
        cells(r.character) > 0,
        width > 0,
        r.title is Some,
        title_room(r, width) >= 2,
    ensures
        exists|before: nat, after: nat|
            {
                &&& render_spec(r, width) == seq![
                    plain_model(repeat_seq(r.character, before), Some(r.style)),
                    plain_model(title_text(r.title->0), Some(r.title_style)),
                    plain_model(repeat_seq(r.character, after), Some(r.style)),
                    newline_seg(),
                ]
                &&& #[trigger] title_placed(r.align, before, after, title_room(r, width))
            },
{
    let n = title_room(r, width);
    let (l, rr) = rule_split(r.align, n);
    assert(title_placed(r.align, l, rr, n));
    assert(render_spec(r, width) == seq![
        plain_model(repeat_seq(r.character, l), Some(r.style)),
        plain_model(title_text(r.title->0), Some(r.title_style)),
        plain_model(repeat_seq(r.character, rr), Some(r.style)),
        newline_seg(),
    ]);
}

} // verus!
