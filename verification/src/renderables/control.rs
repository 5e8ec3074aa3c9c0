//! Control renderable: non-printable terminal control codes such as cursor
//! movements, clear-screen, alt-screen toggles, and window title updates.
use vstd::prelude::*;
use crate::segment::{controls_model, ControlCode, ControlCodeModel, ControlType, Segment, SegmentModel};
use crate::text_ops::owned;

verus! {

/// A renderable that inserts one or more terminal control codes.
#[derive(Debug)]
pub struct Control {
    codes: Vec<ControlCode>,
    title: Option<String>,
}

/// The value of a control renderable.
pub struct ControlModel {
    pub codes: Seq<ControlCodeModel>,
    pub title: Option<Seq<char>>,
}

impl View for Control {
    type V = ControlModel;

    closed spec fn view(&self) -> ControlModel {
        ControlModel {
            codes: controls_model(self.codes@),
            title: match self.title { Some(t) => Some(t@), None => None },
        }
    }
}

/// A control code without parameters.
pub open spec fn bare(t: ControlType) -> ControlCodeModel {
    ControlCodeModel { control_type: t, params: Seq::empty() }
}

/// A control code with parameters.
pub open spec fn with(t: ControlType, params: Seq<i32>) -> ControlCodeModel {
    ControlCodeModel { control_type: t, params }
}

/// `|x|`, with `i32::MIN` giving `i32::MAX`.
pub open spec fn sat_abs(x: i32) -> i32 {
    if x == i32::MIN { i32::MAX } else if x < 0 { (-x) as i32 } else { x }
}

/// `i32::saturating_abs`.
fn saturating_abs(x: i32) -> (r: i32)
    ensures
        r == sat_abs(x),
{
    if x == i32::MIN {
        i32::MAX
    } else if x < 0 {
        -x
    } else {
        x
    }
}

/// The vertical move for a row offset: down for positive, up for negative,
/// nothing for zero.
pub open spec fn vertical_move(y: i32) -> Seq<ControlCodeModel> {
    if y == 0 {
        Seq::empty()
    } else {
        seq![with(if y > 0 { ControlType::CursorDown } else { ControlType::CursorUp }, seq![sat_abs(y)])]
    }
}

/// The horizontal move for a column offset: forward for positive, backward
/// for negative, nothing for zero.
pub open spec fn horizontal_move(x: i32) -> Seq<ControlCodeModel> {
    if x == 0 {
        Seq::empty()
    } else {
        seq![with(if x > 0 { ControlType::CursorForward } else { ControlType::CursorBackward }, seq![sat_abs(x)])]
    }
}

/// One code with one parameter.
fn one_param(t: ControlType, p: i32) -> (c: ControlCode)
    ensures
        c@ == with(t, seq![p]),
{
    let mut v: Vec<i32> = Vec::new();
    v.push(p);
    assert(v@ =~= seq![p]);
    ControlCode::with_params(t, v)
}

/// Appends the vertical move for a row offset.
fn push_vertical(codes: &mut Vec<ControlCode>, y: i32)
    ensures
        controls_model(final(codes)@) == controls_model(old(codes)@) + vertical_move(y),
{
    if y != 0 {
        let t = if y > 0 { ControlType::CursorDown } else { ControlType::CursorUp };
        let c = one_param(t, saturating_abs(y));
        let ghost prev = codes@;
        codes.push(c);
        assert(controls_model(codes@) =~= controls_model(prev) + vertical_move(y));
    } else {
        assert(controls_model(codes@) =~= controls_model(codes@) + vertical_move(y));
    }
}

impl Control {
    /// Construct a Control renderable from explicit control codes.
    pub fn new(codes: Vec<ControlCode>) -> (c: Self)
        ensures
            c@ == (ControlModel { codes: controls_model(codes@), title: None }),
    {
        Control { codes, title: None }
    }

    /// A control with a single code without parameters.
    fn single(t: ControlType) -> (c: Self)
        ensures
            c@ == (ControlModel { codes: seq![bare(t)], title: None }),
    {
        let mut v: Vec<ControlCode> = Vec::new();
        v.push(ControlCode::new(t));
        assert(controls_model(v@) =~= seq![bare(t)]);
        Control::new(v)
    }

    /// Ring the bell.
    pub fn bell() -> (c: Self)
        ensures
            c@ == (ControlModel { codes: seq![bare(ControlType::Bell)], title: None }),
    {
        Control::single(ControlType::Bell)
    }

    /// Move the cursor home.
    pub fn home() -> (c: Self)
        ensures
            c@ == (ControlModel { codes: seq![bare(ControlType::Home)], title: None }),
    {
        Control::single(ControlType::Home)
    }

    /// Move cursor relative to current position: horizontally, then vertically.
    pub fn move_cursor(x: i32, y: i32) -> (c: Self)
        ensures
            c@ == (ControlModel { codes: horizontal_move(x) + vertical_move(y), title: None }),
    {
        let mut codes: Vec<ControlCode> = Vec::new();
        if x != 0 {
            let t = if x > 0 { ControlType::CursorForward } else { ControlType::CursorBackward };
            let c = one_param(t, saturating_abs(x));
            codes.push(c);
        }
        assert(controls_model(codes@) =~= horizontal_move(x));
        push_vertical(&mut codes, y);
        Control::new(codes)
    }

    /// Move to the given column, optionally with a relative row offset.
    pub fn move_to_column(x: i32, y: i32) -> (c: Self)
        ensures
            c@ == (ControlModel {
                codes: seq![with(ControlType::CursorMoveToColumn, seq![x])] + vertical_move(y),
                title: None,
            }),
    {
        let mut codes: Vec<ControlCode> = Vec::new();
        codes.push(one_param(ControlType::CursorMoveToColumn, x));
        assert(controls_model(codes@) =~= seq![with(ControlType::CursorMoveToColumn, seq![x])]);
        push_vertical(&mut codes, y);
        Control::new(codes)
    }

    /// Move cursor to an absolute position (x, y).
    pub fn move_to(x: i32, y: i32) -> (c: Self)
        ensures
            c@ == (ControlModel { codes: seq![with(ControlType::CursorMoveTo, seq![x, y])], title: None }),
    {
        let mut p: Vec<i32> = Vec::new();
        p.push(x);
        p.push(y);
        assert(p@ =~= seq![x, y]);
        let mut codes: Vec<ControlCode> = Vec::new();
        codes.push(ControlCode::with_params(ControlType::CursorMoveTo, p));
        assert(controls_model(codes@) =~= seq![with(ControlType::CursorMoveTo, seq![x, y])]);
        Control::new(codes)
    }

    /// Clear the screen.
    pub fn clear() -> (c: Self)
        ensures
            c@ == (ControlModel { codes: seq![bare(ControlType::Clear)], title: None }),
    {
        Control::single(ControlType::Clear)
    }

    /// Show or hide the cursor.
    pub fn show_cursor(show: bool) -> (c: Self)
        ensures
            c@ == (ControlModel {
                codes: seq![bare(if show { ControlType::ShowCursor } else { ControlType::HideCursor })],
                title: None,
            }),
    {
        Control::single(if show { ControlType::ShowCursor } else { ControlType::HideCursor })
    }

    /// Enter the alternate screen (and move home), or leave it.
    pub fn alt_screen(enable: bool) -> (c: Self)
        ensures
            c@ == (ControlModel {
                codes: if enable {
                    seq![bare(ControlType::EnableAltScreen), bare(ControlType::Home)]
                } else {
                    seq![bare(ControlType::DisableAltScreen)]
                },
                title: None,
            }),
    {
        if enable {
            let mut v: Vec<ControlCode> = Vec::new();
            v.push(ControlCode::new(ControlType::EnableAltScreen));
            v.push(ControlCode::new(ControlType::Home));
            assert(controls_model(v@) =~= seq![bare(ControlType::EnableAltScreen), bare(ControlType::Home)]);
            Control::new(v)
        } else {
            Control::single(ControlType::DisableAltScreen)
        }
    }

    /// Set the window title.
    pub fn title(title: &str) -> (c: Self)
        ensures
            c@ == (ControlModel { codes: seq![bare(ControlType::SetWindowTitle)], title: Some(title@) }),
    {
        let c = Control::single(ControlType::SetWindowTitle);
        Control { title: Some(owned(title)), ..c }
    }

    /// Render to a single control segment, carrying the title as its text.
    pub fn render(&self) -> (v: Vec<Segment>)
        ensures
            v@.len() == 1,
            v@[0]@ == (SegmentModel {
                text: match self@.title { Some(t) => t, None => Seq::empty() },
                style: None,
                control: Some(self@.codes),
            }),
    {
        let text = match &self.title { Some(t) => t.clone(), None => String::new() };
        let mut codes: Vec<ControlCode> = Vec::new();
        let mut i: usize = 0;
        while i < self.codes.len()
            invariant
                i <= self.codes@.len(),
                codes@.len() == i,
                controls_model(codes@) == controls_model(self.codes@.take(i as int)),
            decreases self.codes.len() - i,
        {
            let c = self.codes[i].clone();
            assert(c@ == self.codes@[i as int]@);
            let ghost prev = codes@;
            codes.push(c);
            proof {
                assert(self.codes@.take(i + 1) =~= self.codes@.take(i as int).push(self.codes@[i as int]));
                assert forall|k: int| 0 <= k < i + 1 implies #[trigger] controls_model(codes@)[k]
                    == controls_model(self.codes@.take(i + 1))[k] by {
                    if k < i {
                        assert(controls_model(prev)[k] == controls_model(self.codes@.take(i as int))[k]);
                    }
                }
                assert(controls_model(codes@) =~= controls_model(self.codes@.take(i + 1)));
            }
            i += 1;
        }
        assert(self.codes@.take(self.codes@.len() as int) =~= self.codes@);
        let mut v: Vec<Segment> = Vec::new();
        v.push(Segment { text, style: None, control: Some(codes) });
        v
    }
}

} // verus!
