//! Style system for terminal text attributes: colors, text decorations and hyperlinks.
use vstd::prelude::*;
use crate::color::{
    ansi_model, downgrade_model, model_codes, model_codes_defined, parse_outcome, std_is_whitespace,
    hex_slice_panics, is_whitespace, Color, ColorModel, ColorOutcome, ColorParseError,
    ColorParseErrorKind, ColorSystem, ColorTriplet, default_model, rgb_model,
};
use crate::strings::{std_lowercase, std_trim, to_lowercase, trim};
use crate::text_ops::{
    chars_eq_str, chars_of, decimal, owned, push_char, push_decimal, push_str, string_from_chars,
    string_from_range,
};

verus! {

/// Text attribute flags, one bit per ANSI SGR attribute.
pub type Attributes = u16;

/// The flag of attribute number `k` in the SGR table order (bold, dim, italic,
/// underline, blink, blink2, reverse, conceal, strike, underline2, frame, encircle,
/// overline).
pub open spec fn attr_flag(k: nat) -> u16 {
    (1u16 << (k as u16)) as u16
}

/// The SGR code of attribute number `k`.
pub open spec fn attr_code(k: nat) -> u8 {
    if k < 9 { (k + 1) as u8 } else if k == 9 { 21 } else if k == 10 { 51 } else if k == 11 { 52 } else { 53 }
}

/// The SGR codes of the attributes set in `a`, from attribute number `k` on.
pub open spec fn sgr_codes_from(a: u16, k: nat) -> Seq<u8>
    decreases 13 - k,
{
    if k >= 13 {
        Seq::empty()
    } else {
        (if a & attr_flag(k) == attr_flag(k) { seq![attr_code(k)] } else { Seq::empty() }) + sgr_codes_from(a, k + 1)
    }
}

/// Operations on attribute flags.
pub trait AttributeFlags: Sized {
    /// Bold/bright text (SGR 1).
    const BOLD: u16 = 1;
    /// Dim/faint text (SGR 2).
    const DIM: u16 = 2;
    /// Italic text (SGR 3).
    const ITALIC: u16 = 4;
    /// Single underline (SGR 4).
    const UNDERLINE: u16 = 8;
    /// Slow blinking text (SGR 5).
    const BLINK: u16 = 16;
    /// Fast blinking text (SGR 6).
    const BLINK2: u16 = 32;
    /// Reverse video (SGR 7).
    const REVERSE: u16 = 64;
    /// Concealed text (SGR 8).
    const CONCEAL: u16 = 128;
    /// Strikethrough (SGR 9).
    const STRIKE: u16 = 256;
    /// Double underline (SGR 21).
    const UNDERLINE2: u16 = 512;
    /// Framed text (SGR 51).
    const FRAME: u16 = 1024;
    /// Encircled text (SGR 52).
    const ENCIRCLE: u16 = 2048;
    /// Overlined text (SGR 53).
    const OVERLINE: u16 = 4096;

    /// Whether every flag of `other` is set.
    fn contains(&self, other: u16) -> (r: bool);

    /// Set the flags of `other`.
    fn insert(&mut self, other: u16);

    /// Clear the flags of `other`.
    fn remove(&mut self, other: u16);

    /// The SGR codes of the set attributes, in table order.
    fn to_sgr_codes(&self) -> Vec<u8>;
}

impl AttributeFlags for u16 {
    fn contains(&self, other: u16) -> (r: bool)
        ensures
            r == (*self & other == other),
    {
        *self & other == other
    }

    fn insert(&mut self, other: u16)
        ensures
            *final(self) == *old(self) | other,
    {
        *self = *self | other;
    }

    fn remove(&mut self, other: u16)
        ensures
            *final(self) == *old(self) & !other,
    {
        *self = *self & !other;
    }

    fn to_sgr_codes(&self) -> (v: Vec<u8>)
        ensures
            v@ == sgr_codes_from(*self, 0),
    {
        sgr_codes(*self)
    }
}

/// The SGR code of attribute number `k`.
fn attr_code_of(k: u16) -> (c: u8)
    requires
        k < 13,
    ensures
        c == attr_code(k as nat),
{
    if k < 9 { (k + 1) as u8 } else if k == 9 { 21 } else if k == 10 { 51 } else if k == 11 { 52 } else { 53 }
}

/// The SGR codes of the attributes set in `a`, in table order.
pub fn sgr_codes(a: u16) -> (v: Vec<u8>)
    ensures
        v@ == sgr_codes_from(a, 0),
{
    let mut v: Vec<u8> = Vec::new();
    let mut k: u16 = 0;
    while k < 13
        invariant
            k <= 13,
            v@ + sgr_codes_from(a, k as nat) == sgr_codes_from(a, 0),
        decreases 13 - k,
    {
        let flag: u16 = 1u16 << k;
        let ghost before = v@;
        if a & flag == flag {
            v.push(attr_code_of(k));
        }
        proof {
            assert(sgr_codes_from(a, k as nat) == (if a & attr_flag(k as nat) == attr_flag(k as nat) {
                seq![attr_code(k as nat)]
            } else {
                Seq::empty()
            }) + sgr_codes_from(a, (k + 1) as nat));
        }
        k += 1;
    }
    assert(sgr_codes_from(a, 13) =~= Seq::<u8>::empty());
    assert(v@ + Seq::<u8>::empty() == v@);
    v
}

/// The mathematical value of a style.
pub struct StyleModel {
    /// Foreground color.
    pub color: Option<ColorModel>,
    /// Background color.
    pub bgcolor: Option<ColorModel>,
    /// Enabled attributes.
    pub attributes: u16,
    /// Attributes set explicitly, on or off.
    pub set_attributes: u16,
    /// Hyperlink target.
    pub link: Option<Seq<char>>,
    /// Whether this is the null style.
    pub null: bool,
}

/// Visual style for terminal text: colors, attributes and a hyperlink.
#[derive(Debug, PartialEq, Eq, Hash)]
pub struct Style {
    /// Foreground color.
    pub color: Option<Color>,
    /// Background color.
    pub bgcolor: Option<Color>,
    /// Enabled attributes.
    pub attributes: Attributes,
    /// Which attributes are explicitly set (vs inherited).
    pub set_attributes: Attributes,
    /// URL for hyperlinks.
    pub link: Option<String>,
    /// Whether this is a null/empty style.
    null: bool,
}

/// The value of an optional color.
pub open spec fn opt_color_model(c: Option<Color>) -> Option<ColorModel> {
    match c {
        Some(c) => Some(c@),
        None => None,
    }
}

/// The value of an optional string.
pub open spec fn opt_string_model(s: Option<String>) -> Option<Seq<char>> {
    match s {
        Some(s) => Some(s@),
        None => None,
    }
}

impl View for Style {
    type V = StyleModel;

    closed spec fn view(&self) -> StyleModel {
        StyleModel {
            color: opt_color_model(self.color),
            bgcolor: opt_color_model(self.bgcolor),
            attributes: self.attributes,
            set_attributes: self.set_attributes,
            link: opt_string_model(self.link),
            null: self.null,
        }
    }
}

impl Clone for Style {
    fn clone(&self) -> (s: Self)
        ensures
            s == *self,
    {
        Style {
            color: match &self.color { Some(c) => Some(c.clone()), None => None },
            bgcolor: match &self.bgcolor { Some(c) => Some(c.clone()), None => None },
            attributes: self.attributes,
            set_attributes: self.set_attributes,
            link: match &self.link { Some(l) => Some(l.clone()), None => None },
            null: self.null,
        }
    }
}

impl Default for Style {
    fn default() -> (s: Self)
        ensures
            s@ == empty_style_model(false),
    {
        Style::new()
    }
}

/// A style with no colors, attributes or link.
pub open spec fn empty_style_model(null: bool) -> StyleModel {
    StyleModel { color: None, bgcolor: None, attributes: 0, set_attributes: 0, link: None, null }
}

/// A style value with attribute flags `a` turned on and marked as set.
pub open spec fn with_attr_model(s: StyleModel, a: u16) -> StyleModel {
    StyleModel { attributes: s.attributes | a, set_attributes: s.set_attributes | a, null: false, ..s }
}

/// A style value with attribute flags `a` turned off and marked as set.
pub open spec fn without_attr_model(s: StyleModel, a: u16) -> StyleModel {
    StyleModel { attributes: s.attributes & !a, set_attributes: s.set_attributes | a, null: false, ..s }
}

/// A style value with foreground color `c`.
pub open spec fn with_color_model(s: StyleModel, c: ColorModel) -> StyleModel {
    StyleModel { color: Some(c), null: false, ..s }
}

/// A style value with background color `c`.
pub open spec fn with_bgcolor_model(s: StyleModel, c: ColorModel) -> StyleModel {
    StyleModel { bgcolor: Some(c), null: false, ..s }
}

/// A style value with hyperlink `url`.
pub open spec fn with_link_model(s: StyleModel, url: Seq<char>) -> StyleModel {
    StyleModel { link: Some(url), null: false, ..s }
}

/// The first present option.
pub open spec fn or_else<T>(a: Option<T>, b: Option<T>) -> Option<T> {
    if a is Some { a } else { b }
}

/// Combination of two style values, the second taking precedence: a null style
/// leaves the other unchanged; otherwise each color and the link come from the
/// second where it has one, and each attribute the second sets comes from it.
pub open spec fn combine_model(a: StyleModel, b: StyleModel) -> StyleModel {
    if b.null {
        a
    } else if a.null {
        b
    } else {
        StyleModel {
            color: or_else(b.color, a.color),
            bgcolor: or_else(b.bgcolor, a.bgcolor),
            attributes: (a.attributes & !b.set_attributes) | (b.attributes & b.set_attributes),
            set_attributes: a.set_attributes | b.set_attributes,
            link: or_else(b.link, a.link),
            null: false,
        }
    }
}

/// Combination of two styles, as `combine_model` on their values, keeping the
/// second style's field values where it provides them.
pub closed spec fn combine_spec(a: Style, b: Style) -> Style {
    if b.null {
        a
    } else if a.null {
        b
    } else {
        Style {
            color: or_else(b.color, a.color),
            bgcolor: or_else(b.bgcolor, a.bgcolor),
            attributes: (a.attributes & !b.set_attributes) | (b.attributes & b.set_attributes),
            set_attributes: a.set_attributes | b.set_attributes,
            link: or_else(b.link, a.link),
            null: false,
        }
    }
}

/// Whether two optional colors are equal.
fn same_opt_color(a: &Option<Color>, b: &Option<Color>) -> (r: bool)
    ensures
        r == (opt_color_model(*a) == opt_color_model(*b)),
{
    match (a, b) {
        (Some(x), Some(y)) => x.same_as(y),
        (None, None) => true,
        _ => false,
    }
}

/// Whether two optional strings are equal.
fn same_opt_string(a: &Option<String>, b: &Option<String>) -> (r: bool)
    ensures
        r == (opt_string_model(*a) == opt_string_model(*b)),
{
    match (a, b) {
        (Some(x), Some(y)) => x.eq(y),
        (None, None) => true,
        _ => false,
    }
}

impl Style {
    /// Whether two styles are equal: same colors, attributes, link and nullness.
    pub fn same_as(&self, other: &Style) -> (r: bool)
        ensures
            r == (self@ == other@),
    {
        same_opt_color(&self.color, &other.color) && same_opt_color(&self.bgcolor, &other.bgcolor)
            && self.attributes == other.attributes && self.set_attributes == other.set_attributes
            && same_opt_string(&self.link, &other.link) && self.null == other.null
    }
}

/// Whether two optional styles are equal.
pub fn same_opt_style(a: &Option<Style>, b: &Option<Style>) -> (r: bool)
    ensures
        r == (opt_style_model(*a) == opt_style_model(*b)),
{
    match (a, b) {
        (Some(x), Some(y)) => x.same_as(y),
        (None, None) => true,
        _ => false,
    }
}

/// The value of an optional style.
pub open spec fn opt_style_model(s: Option<Style>) -> Option<StyleModel> {
    match s {
        Some(s) => Some(s@),
        None => None,
    }
}

/// The value of a combination is the combination of the values.
pub proof fn lemma_combine_view(a: Style, b: Style)
    ensures
        combine_spec(a, b)@ == combine_model(a@, b@),
{
}

impl Style {
    /// The null style: no styling at all.
    pub fn null() -> (s: Self)
        ensures
            s@ == empty_style_model(true),
    {
        Style { color: None, bgcolor: None, attributes: 0, set_attributes: 0, link: None, null: true }
    }

    /// A new, empty (not null) style.
    pub fn new() -> (s: Self)
        ensures
            s@ == empty_style_model(false),
    {
        Style { color: None, bgcolor: None, attributes: 0, set_attributes: 0, link: None, null: false }
    }

    /// Whether this is the null style.
    pub fn is_null(&self) -> (r: bool)
        ensures
            r == self@.null,
    {
        self.null
    }

    /// Set the foreground color.
    pub fn color(self, color: Color) -> (s: Self)
        ensures
            s@ == with_color_model(self@, color@),
    {
        Style { color: Some(color), null: false, ..self }
    }

    /// Set the background color.
    pub fn bgcolor(self, color: Color) -> (s: Self)
        ensures
            s@ == with_bgcolor_model(self@, color@),
    {
        Style { bgcolor: Some(color), null: false, ..self }
    }

    /// Turn on the attribute flags `a` and mark them as set.
    fn with_attr(self, a: u16) -> (s: Self)
        ensures
            s@ == with_attr_model(self@, a),
    {
        Style { attributes: self.attributes | a, set_attributes: self.set_attributes | a, null: false, ..self }
    }

    /// Enable bold text.
    pub fn bold(self) -> (s: Self)
        ensures
            s@ == with_attr_model(self@, 1),
    {
        self.with_attr(1)
    }

    /// Enable dim text.
    pub fn dim(self) -> (s: Self)
        ensures
            s@ == with_attr_model(self@, 2),
    {
        self.with_attr(2)
    }

    /// Enable italic text.
    pub fn italic(self) -> (s: Self)
        ensures
            s@ == with_attr_model(self@, 4),
    {
        self.with_attr(4)
    }

    /// Enable underlined text.
    pub fn underline(self) -> (s: Self)
        ensures
            s@ == with_attr_model(self@, 8),
    {
        self.with_attr(8)
    }

    /// Enable blinking text.
    pub fn blink(self) -> (s: Self)
        ensures
            s@ == with_attr_model(self@, 16),
    {
        self.with_attr(16)
    }

    /// Enable reverse video.
    pub fn reverse(self) -> (s: Self)
        ensures
            s@ == with_attr_model(self@, 64),
    {
        self.with_attr(64)
    }

    /// Enable concealed text.
    pub fn conceal(self) -> (s: Self)
        ensures
            s@ == with_attr_model(self@, 128),
    {
        self.with_attr(128)
    }

    /// Enable strikethrough.
    pub fn strike(self) -> (s: Self)
        ensures
            s@ == with_attr_model(self@, 256),
    {
        self.with_attr(256)
    }

    /// Enable overline.
    pub fn overline(self) -> (s: Self)
        ensures
            s@ == with_attr_model(self@, 4096),
    {
        self.with_attr(4096)
    }

    /// Set a hyperlink URL.
    pub fn link(self, url: &str) -> (s: Self)
        ensures
            s@ == with_link_model(self@, url@),
    {
        Style { link: Some(owned(url)), null: false, ..self }
    }

    /// Turn off the attribute flags `attr` and mark them as set.
    pub fn not(self, attr: Attributes) -> (s: Self)
        ensures
            s@ == without_attr_model(self@, attr),
    {
        Style { attributes: self.attributes & !attr, set_attributes: self.set_attributes | attr, null: false, ..self }
    }

    /// Combine with another style, the other taking precedence.
    pub fn combine(&self, other: &Style) -> (s: Style)
        ensures
            s == combine_spec(*self, *other),
            s@ == combine_model(self@, other@),
    {
        if other.null {
            return self.clone();
        }
        if self.null {
            return other.clone();
        }
        Style {
            color: match &other.color {
                Some(c) => Some(c.clone()),
                None => match &self.color { Some(c) => Some(c.clone()), None => None },
            },
            bgcolor: match &other.bgcolor {
                Some(c) => Some(c.clone()),
                None => match &self.bgcolor { Some(c) => Some(c.clone()), None => None },
            },
            attributes: (self.attributes & !other.set_attributes) | (other.attributes & other.set_attributes),
            set_attributes: self.set_attributes | other.set_attributes,
            link: match &other.link {
                Some(l) => Some(l.clone()),
                None => match &self.link { Some(l) => Some(l.clone()), None => None },
            },
            null: false,
        }
    }

    /// Set the foreground color from a color string.
    pub fn color_str(self, color: &str) -> (r: Result<Self, StyleParseError>)
        requires
            !hex_slice_panics(std_lowercase(std_trim(color@))),
        ensures
            match outcome_color(parse_outcome(std_lowercase(std_trim(color@)))) {
                Some(c) => r matches Ok(s) && s@ == with_color_model(self@, c),
                None => r matches Err(StyleParseError::ColorError(e)) && color_error_matches(
                    e,
                    parse_outcome(std_lowercase(std_trim(color@))),
                    std_lowercase(std_trim(color@)),
                ),
            },
    {
        match Color::parse(color) {
            Ok(c) => Ok(self.color(c)),
            Err(e) => Err(StyleParseError::ColorError(e)),
        }
    }

    /// Set the background color from a color string.
    pub fn bgcolor_str(self, color: &str) -> (r: Result<Self, StyleParseError>)
        requires
            !hex_slice_panics(std_lowercase(std_trim(color@))),
        ensures
            match outcome_color(parse_outcome(std_lowercase(std_trim(color@)))) {
                Some(c) => r matches Ok(s) && s@ == with_bgcolor_model(self@, c),
                None => r matches Err(StyleParseError::ColorError(e)) && color_error_matches(
                    e,
                    parse_outcome(std_lowercase(std_trim(color@))),
                    std_lowercase(std_trim(color@)),
                ),
            },
    {
        match Color::parse(color) {
            Ok(c) => Ok(self.bgcolor(c)),
            Err(e) => Err(StyleParseError::ColorError(e)),
        }
    }
}

impl Style {
    /// Set the foreground color from a color string as `color_str` does, or
    /// `None` where reading it would cut a character apart.
    pub fn checked_color_str(self, color: &str) -> (r: Option<Result<Self, StyleParseError>>)
        ensures
            r is None <==> hex_slice_panics(std_lowercase(std_trim(color@))),
            r matches Some(res) ==> match outcome_color(parse_outcome(std_lowercase(std_trim(color@)))) {
                Some(c) => res matches Ok(s) && s@ == with_color_model(self@, c),
                None => res matches Err(StyleParseError::ColorError(e)) && color_error_matches(
                    e,
                    parse_outcome(std_lowercase(std_trim(color@))),
                    std_lowercase(std_trim(color@)),
                ),
            },
    {
        if Color::parse_would_panic(color) {
            None
        } else {
            Some(self.color_str(color))
        }
    }

    /// Set the background color from a color string as `bgcolor_str` does, or
    /// `None` where reading it would cut a character apart.
    pub fn checked_bgcolor_str(self, color: &str) -> (r: Option<Result<Self, StyleParseError>>)
        ensures
            r is None <==> hex_slice_panics(std_lowercase(std_trim(color@))),
            r matches Some(res) ==> match outcome_color(parse_outcome(std_lowercase(std_trim(color@)))) {
                Some(c) => res matches Ok(s) && s@ == with_bgcolor_model(self@, c),
                None => res matches Err(StyleParseError::ColorError(e)) && color_error_matches(
                    e,
                    parse_outcome(std_lowercase(std_trim(color@))),
                    std_lowercase(std_trim(color@)),
                ),
            },
    {
        if Color::parse_would_panic(color) {
            None
        } else {
            Some(self.bgcolor_str(color))
        }
    }
}

impl std::ops::Add for Style {
    type Output = Style;

    fn add(self, rhs: Style) -> (s: Style) {
        self.combine(&rhs)
    }
}

impl vstd::std_specs::ops::AddSpecImpl for Style {
    open spec fn obeys_add_spec() -> bool {
        true
    }

    open spec fn add_req(self, rhs: Style) -> bool {
        true
    }

    open spec fn add_spec(self, rhs: Style) -> Style {
        combine_spec(self, rhs)
    }
}

/// The color value a successful color parse outcome describes.
pub open spec fn outcome_color(o: ColorOutcome) -> Option<ColorModel> {
    match o {
        ColorOutcome::DefaultColor => Some(default_model()),
        ColorOutcome::Rgb(t) => Some(rgb_model(t)),
        ColorOutcome::Ansi(n) => Some(ansi_model(n)),
        ColorOutcome::Error(_) => None,
    }
}

/// `e` is the error that a failed color parse outcome describes for input `s`.
pub open spec fn color_error_matches(e: ColorParseError, o: ColorOutcome, s: Seq<char>) -> bool {
    crate::color::parse_result_matches(Err(e), o, s)
}

/// Error type for style parsing.
#[derive(Debug, PartialEq, Eq)]
pub enum StyleParseError {
    /// A keyword without its argument.
    InvalidFormat(String),
    /// `not` followed by something that is not an attribute.
    UnknownAttribute(String),
    /// A word that is neither a keyword, an attribute nor a color.
    UnknownToken(String),
    /// A color that did not parse.
    ColorError(ColorParseError),
}

/// The message of a style error.
pub open spec fn style_error_text(e: StyleParseError) -> Seq<char> {
    match e {
        StyleParseError::InvalidFormat(m) => "Invalid style format: "@ + m@,
        StyleParseError::UnknownAttribute(m) => "Unknown attribute: "@ + m@,
        StyleParseError::UnknownToken(m) => "Unknown token: "@ + m@,
        StyleParseError::ColorError(e) => "Color error: "@ + crate::color::color_error_message(e),
    }
}

impl StyleParseError {
    /// The error message.
    pub fn to_display_string(&self) -> (s: String)
        ensures
            s@ == style_error_text(*self),
    {
        match self {
            StyleParseError::InvalidFormat(m) => {
                let mut s = owned("Invalid style format: ");
                push_str(&mut s, m.as_str());
                s
            },
            StyleParseError::UnknownAttribute(m) => {
                let mut s = owned("Unknown attribute: ");
                push_str(&mut s, m.as_str());
                s
            },
            StyleParseError::UnknownToken(m) => {
                let mut s = owned("Unknown token: ");
                push_str(&mut s, m.as_str());
                s
            },
            StyleParseError::ColorError(e) => {
                let mut s = owned("Color error: ");
                let m = e.to_display_string();
                push_str(&mut s, m.as_str());
                s
            },
        }
    }
}

/// The decimal forms of a list of codes.
pub open spec fn code_strings(codes: Seq<u8>) -> Seq<Seq<char>> {
    codes.map_values(|c: u8| decimal(c as nat))
}

/// The SGR parameters of a style value under a color system: the attribute codes,
/// then the foreground color's and the background color's, each color first
/// downgraded to the color system.
pub open spec fn style_code_list(s: StyleModel, cs: ColorSystem) -> Seq<Seq<char>> {
    code_strings(sgr_codes_from(s.attributes, 0)) + (match s.color {
        Some(c) => model_codes(downgrade_model(c, cs), true),
        None => Seq::empty(),
    }) + (match s.bgcolor {
        Some(c) => model_codes(downgrade_model(c, cs), false),
        None => Seq::empty(),
    })
}

/// The colors of a style give defined SGR codes under a color system.
pub open spec fn style_codes_defined(s: StyleModel, cs: ColorSystem) -> bool {
    &&& (s.color matches Some(c) ==> model_codes_defined(downgrade_model(c, cs), true))
    &&& (s.bgcolor matches Some(c) ==> model_codes_defined(downgrade_model(c, cs), false))
}

/// Whether a color, downgraded to a color system, has escape codes.
fn color_writable(c: &Color, cs: ColorSystem, foreground: bool) -> (r: bool)
    ensures
        r == model_codes_defined(downgrade_model(c@, cs), foreground),
{
    let d = c.downgrade(cs);
    match d.color_type {
        crate::color::ColorType::Standard | crate::color::ColorType::Windows => {
            let n: u16 = match d.number {
                Some(n) => n as u16,
                None => 0,
            };
            n < 8 || (if foreground { 82 + n } else { 92 + n }) <= 255
        },
        _ => true,
    }
}

impl Style {
    /// Whether the style's colors have escape codes in a color system (see
    /// `style_codes_defined`).
    pub fn codes_defined(&self, cs: ColorSystem) -> (r: bool)
        ensures
            r == style_codes_defined(self@, cs),
    {
        let fg = match &self.color {
            Some(c) => color_writable(c, cs, true),
            None => true,
        };
        let bg = match &self.bgcolor {
            Some(c) => color_writable(c, cs, false),
            None => true,
        };
        fg && bg
    }
}

/// Parts joined with a separator character.
pub open spec fn join_with(parts: Seq<Seq<char>>, sep: char) -> Seq<char>
    decreases parts.len(),
{
    if parts.len() == 0 {
        Seq::empty()
    } else if parts.len() == 1 {
        parts[0]
    } else {
        join_with(parts.drop_last(), sep) + seq![sep] + parts.last()
    }
}

/// The SGR parameter string of a style (`1;31` and the like).
pub open spec fn ansi_codes_string(s: StyleModel, cs: ColorSystem) -> Seq<char> {
    join_with(style_code_list(s, cs), ';')
}

/// The OSC 8 sequence that opens a hyperlink.
pub open spec fn link_open(url: Seq<char>) -> Seq<char> {
    "\x1b]8;;"@ + url + "\x1b\\"@
}

/// The text a style renders: unchanged for the null style or a style without SGR
/// parameters; otherwise the SGR sequence, the text and a reset, wrapped in OSC 8
/// hyperlink sequences when the style has a link.
pub open spec fn render_spec(s: StyleModel, cs: ColorSystem, text: Seq<char>) -> Seq<char> {
    let codes = ansi_codes_string(s, cs);
    if s.null || codes.len() == 0 {
        text
    } else {
        (match s.link { Some(l) => link_open(l), None => Seq::empty() }) + "\x1b["@ + codes + "m"@ + text
            + "\x1b[0m"@ + (match s.link { Some(l) => "\x1b]8;;\x1b\\"@, None => Seq::empty() })
    }
}

/// The (prefix, suffix) pair a style renders around text.
pub open spec fn render_ansi_spec(s: StyleModel, cs: ColorSystem) -> (Seq<char>, Seq<char>) {
    let codes = ansi_codes_string(s, cs);
    if s.null || codes.len() == 0 {
        (Seq::empty(), Seq::empty())
    } else {
        (
            (match s.link { Some(l) => link_open(l), None => Seq::empty() }) + "\x1b["@ + codes + "m"@,
            if s.link is Some { "\x1b[0m\x1b]8;;\x1b\\"@ } else { "\x1b[0m"@ },
        )
    }
}

/// Appends each string of `parts` to a list.
fn extend_strings(v: &mut Vec<String>, parts: Vec<String>)
    ensures
        views(final(v)@) == views(old(v)@) + views(parts@),
{
    let mut i: usize = 0;
    let ghost start = v@;
    while i < parts.len()
        invariant
            i <= parts@.len(),
            start == old(v)@,
            views(v@) == views(start) + views(parts@.take(i as int)),
        decreases parts.len() - i,
    {
        let ghost before = v@;
        v.push(parts[i].clone());
        proof {
            lemma_views_push(before, parts@[i as int]);
            assert(views(parts@.take(i + 1)) =~= views(parts@.take(i as int)).push(parts@[i as int]@));
            assert(views(v@) =~= views(start) + views(parts@.take(i + 1)));
        }
        i += 1;
    }
    assert(parts@.take(i as int) =~= parts@);
}

/// Pushing a string pushes its view.
pub proof fn lemma_views_push(v: Seq<String>, s: String)
    ensures
        views(v.push(s)) =~= views(v).push(s@),
{
}

/// The character views of a list of strings.
pub open spec fn views(v: Seq<String>) -> Seq<Seq<char>> {
    v.map_values(|s: String| s@)
}

/// Join strings with a separator character.
pub fn join_strings(parts: &Vec<String>, sep: char) -> (s: String)
    ensures
        s@ == join_with(views(parts@), sep),
{
    let mut s = String::new();
    let mut i: usize = 0;
    while i < parts.len()
        invariant
            i <= parts@.len(),
            s@ == join_with(views(parts@.take(i as int)), sep),
        decreases parts.len() - i,
    {
        let ghost prev = views(parts@.take(i as int));
        assert(views(parts@.take(i + 1)).drop_last() =~= prev);
        assert(views(parts@.take(i + 1)).last() == parts@[i as int]@);
        if i > 0 {
            push_char(&mut s, sep);
        } else {
            assert(prev =~= Seq::<Seq<char>>::empty());
            assert(views(parts@.take(1))[0] == parts@[0]@);
        }
        push_str(&mut s, parts[i].as_str());
        i += 1;
    }
    assert(parts@.take(i as int) =~= parts@);
    s
}

impl Style {
    /// The SGR codes of this style as strings.
    fn code_list(&self, color_system: ColorSystem) -> (v: Vec<String>)
        requires
            style_codes_defined(self@, color_system),
        ensures
            views(v@) == style_code_list(self@, color_system),
    {
        let mut v: Vec<String> = Vec::new();
        let codes = sgr_codes(self.attributes);
        let mut i: usize = 0;
        while i < codes.len()
            invariant
                i <= codes@.len(),
                codes@ == sgr_codes_from(self.attributes, 0),
                views(v@) == code_strings(codes@.take(i as int)),
            decreases codes.len() - i,
        {
            let mut s = String::new();
            push_decimal(&mut s, codes[i] as usize);
            assert(Seq::<char>::empty() + decimal(codes@[i as int] as nat) == decimal(codes@[i as int] as nat));
            let ghost before = v@;
            v.push(s);
            proof {
                lemma_views_push(before, v@.last());
                assert(code_strings(codes@.take(i + 1)) =~= code_strings(codes@.take(i as int)).push(
                    decimal(codes@[i as int] as nat),
                ));
            }
            i += 1;
        }
        assert(codes@.take(i as int) =~= codes@);
        assert(self@.attributes == self.attributes);
        if let Some(color) = &self.color {
            let d = color.downgrade(color_system);
            let fg = d.get_ansi_codes(true);
            assert(views(fg@) =~= model_codes(downgrade_model(color@, color_system), true));
            let ghost before = v@;
            extend_strings(&mut v, fg);
            assert(views(v@) =~= views(before) + model_codes(downgrade_model(color@, color_system), true));
        }
        if let Some(color) = &self.bgcolor {
            let d = color.downgrade(color_system);
            let bg = d.get_ansi_codes(false);
            assert(views(bg@) =~= model_codes(downgrade_model(color@, color_system), false));
            let ghost before = v@;
            extend_strings(&mut v, bg);
            assert(views(v@) =~= views(before) + model_codes(downgrade_model(color@, color_system), false));
        }
        assert(style_code_list(self@, color_system) =~= code_strings(sgr_codes_from(self.attributes, 0)) + (
        match self@.color {
            Some(c) => model_codes(downgrade_model(c, color_system), true),
            None => Seq::empty(),
        }) + (match self@.bgcolor {
            Some(c) => model_codes(downgrade_model(c, color_system), false),
            None => Seq::empty(),
        }));
        v
    }

    /// The SGR parameter string of this style, codes separated by `;`.
    pub fn make_ansi_codes(&self, color_system: ColorSystem) -> (s: String)
        requires
            style_codes_defined(self@, color_system),
        ensures
            s@ == ansi_codes_string(self@, color_system),
    {
        let parts = self.code_list(color_system);
        join_strings(&parts, ';')
    }

    /// Render text with this style applied.
    pub fn render(&self, text: &str, color_system: ColorSystem) -> (s: String)
        requires
            style_codes_defined(self@, color_system),
        ensures
            s@ == render_spec(self@, color_system, text@),
    {
        if self.null {
            return owned(text);
        }
        let codes = self.make_ansi_codes(color_system);
        if codes.as_str().is_empty() {
            return owned(text);
        }
        let mut result = String::new();
        if let Some(link) = &self.link {
            push_str(&mut result, "\x1b]8;;");
            push_str(&mut result, link.as_str());
            push_str(&mut result, "\x1b\\");
        }
        push_str(&mut result, "\x1b[");
        push_str(&mut result, codes.as_str());
        push_str(&mut result, "m");
        push_str(&mut result, text);
        push_str(&mut result, "\x1b[0m");
        if self.link.is_some() {
            push_str(&mut result, "\x1b]8;;\x1b\\");
        }
        assert(Seq::<char>::empty() + "\x1b["@ == "\x1b["@);
        assert(Seq::<char>::empty() + "\x1b]8;;"@ == "\x1b]8;;"@);
        result
    }

    /// The escape sequences this style puts before and after text.
    pub fn render_ansi(&self, color_system: ColorSystem) -> (r: (String, String))
        requires
            style_codes_defined(self@, color_system),
        ensures
            (r.0@, r.1@) == render_ansi_spec(self@, color_system),
    {
        if self.null {
            return (String::new(), String::new());
        }
        let codes = self.make_ansi_codes(color_system);
        if codes.as_str().is_empty() {
            return (String::new(), String::new());
        }
        let mut prefix = String::new();
        if let Some(link) = &self.link {
            push_str(&mut prefix, "\x1b]8;;");
            push_str(&mut prefix, link.as_str());
            push_str(&mut prefix, "\x1b\\");
        }
        push_str(&mut prefix, "\x1b[");
        push_str(&mut prefix, codes.as_str());
        push_str(&mut prefix, "m");
        assert(Seq::<char>::empty() + "\x1b["@ == "\x1b["@);
        assert(Seq::<char>::empty() + "\x1b]8;;"@ == "\x1b]8;;"@);
        let suffix = if self.link.is_some() { owned("\x1b[0m\x1b]8;;\x1b\\") } else { owned("\x1b[0m") };
        (prefix, suffix)
    }
}

/// The attribute flag an attribute name stands for.
pub open spec fn attribute_of_name(name: Seq<char>) -> Option<u16> {
    if name == "bold"@ || name == "b"@ { Some(1) }
    else if name == "dim"@ || name == "d"@ { Some(2) }
    else if name == "italic"@ || name == "i"@ { Some(4) }
    else if name == "underline"@ || name == "u"@ { Some(8) }
    else if name == "blink"@ { Some(16) }
    else if name == "blink2"@ { Some(32) }
    else if name == "reverse"@ || name == "r"@ { Some(64) }
    else if name == "conceal"@ || name == "c"@ { Some(128) }
    else if name == "strike"@ || name == "s"@ { Some(256) }
    else if name == "underline2"@ || name == "uu"@ { Some(512) }
    else if name == "frame"@ { Some(1024) }
    else if name == "encircle"@ { Some(2048) }
    else if name == "overline"@ || name == "o"@ { Some(4096) }
    else { None }
}

/// Parse an attribute name to its flag.
fn parse_attribute(name: &Vec<char>) -> (r: Option<u16>)
    ensures
        r == attribute_of_name(name@),
{
    if chars_eq_str(name, "bold") || chars_eq_str(name, "b") { Some(1) }
    else if chars_eq_str(name, "dim") || chars_eq_str(name, "d") { Some(2) }
    else if chars_eq_str(name, "italic") || chars_eq_str(name, "i") { Some(4) }
    else if chars_eq_str(name, "underline") || chars_eq_str(name, "u") { Some(8) }
    else if chars_eq_str(name, "blink") { Some(16) }
    else if chars_eq_str(name, "blink2") { Some(32) }
    else if chars_eq_str(name, "reverse") || chars_eq_str(name, "r") { Some(64) }
    else if chars_eq_str(name, "conceal") || chars_eq_str(name, "c") { Some(128) }
    else if chars_eq_str(name, "strike") || chars_eq_str(name, "s") { Some(256) }
    else if chars_eq_str(name, "underline2") || chars_eq_str(name, "uu") { Some(512) }
    else if chars_eq_str(name, "frame") { Some(1024) }
    else if chars_eq_str(name, "encircle") { Some(2048) }
    else if chars_eq_str(name, "overline") || chars_eq_str(name, "o") { Some(4096) }
    else { None }
}

/// The whitespace-separated words of `s` from index `i` on; `cur` is the start of
/// the word being read, if any.
pub open spec fn split_words(s: Seq<char>, i: nat, cur: Option<nat>) -> Seq<Seq<char>>
    decreases s.len() - i,
{
    if i >= s.len() {
        match cur {
            Some(st) => seq![s.subrange(st as int, s.len() as int)],
            None => Seq::empty(),
        }
    } else if std_is_whitespace(s[i as int]) {
        match cur {
            Some(st) => seq![s.subrange(st as int, i as int)] + split_words(s, i + 1, None),
            None => split_words(s, i + 1, None),
        }
    } else {
        split_words(s, i + 1, if cur is Some { cur } else { Some(i) })
    }
}

/// The whitespace-separated words of `s` (`str::split_whitespace`).
pub open spec fn words_of(s: Seq<char>) -> Seq<Seq<char>> {
    split_words(s, 0, None)
}

/// Split characters into whitespace-separated words.
pub fn split_whitespace(v: &Vec<char>) -> (w: Vec<Vec<char>>)
    ensures
        w@.len() == words_of(v@).len(),
        forall|k: int| 0 <= k < w@.len() ==> #[trigger] w@[k]@ == words_of(v@)[k],
{
    let mut out: Vec<Vec<char>> = Vec::new();
    let mut cur: Option<usize> = None;
    let mut i: usize = 0;
    let ghost target = words_of(v@);
    while i < v.len()
        invariant
            i <= v@.len(),
            target == words_of(v@),
            cur matches Some(st) ==> st < i,
            out@.map_values(|x: Vec<char>| x@) + split_words(v@, i as nat, match cur {
                Some(st) => Some(st as nat),
                None => None,
            }) == target,
        decreases v.len() - i,
    {
        let ghost prev = out@.map_values(|x: Vec<char>| x@);
        if is_whitespace(v[i]) {
            if let Some(st) = cur {
                let mut word: Vec<char> = Vec::new();
                let mut j = st;
                while j < i
                    invariant
                        st <= j <= i < v@.len(),
                        word@ == v@.subrange(st as int, j as int),
                    decreases i - j,
                {
                    word.push(v[j]);
                    assert(v@.subrange(st as int, j + 1) == v@.subrange(st as int, j as int).push(v@[j as int]));
                    j += 1;
                }
                out.push(word);
                assert(out@.map_values(|x: Vec<char>| x@) =~= prev.push(v@.subrange(st as int, i as int)));
                assert(prev.push(v@.subrange(st as int, i as int)) + split_words(v@, (i + 1) as nat, None)
                    =~= prev + (seq![v@.subrange(st as int, i as int)] + split_words(v@, (i + 1) as nat, None)));
            }
            cur = None;
        } else if cur.is_none() {
            cur = Some(i);
        }
        i += 1;
    }
    if let Some(st) = cur {
        let ghost prev = out@.map_values(|x: Vec<char>| x@);
        let mut word: Vec<char> = Vec::new();
        let mut j = st;
        while j < v.len()
            invariant
                st <= j <= v@.len(),
                word@ == v@.subrange(st as int, j as int),
            decreases v.len() - j,
        {
            word.push(v[j]);
            assert(v@.subrange(st as int, j + 1) == v@.subrange(st as int, j as int).push(v@[j as int]));
            j += 1;
        }
        out.push(word);
        assert(out@.map_values(|x: Vec<char>| x@) =~= prev.push(v@.subrange(st as int, v@.len() as int)));
    } else {
        assert(out@.map_values(|x: Vec<char>| x@) + Seq::<Seq<char>>::empty() == out@.map_values(|x: Vec<char>| x@));
    }
    assert(out@.map_values(|x: Vec<char>| x@) =~= target);
    out
}

/// The error values of style parsing.
pub enum StyleErrorModel {
    /// A keyword without its argument, with the message.
    InvalidFormat(Seq<char>),
    /// `not` with a word that is not an attribute.
    UnknownAttribute(Seq<char>),
    /// A word that is neither keyword, attribute nor color.
    UnknownToken(Seq<char>),
    /// A color error for a normalized color word.
    BadColor(ColorOutcome, Seq<char>),
}

/// The outcome of parsing a style string.
pub enum StyleOutcome {
    /// The parsed style.
    Parsed(StyleModel),
    /// The error.
    Failed(StyleErrorModel),
    /// Reading a color word would cut a character apart.
    Panics,
}

/// The normalized form of a color word.
pub open spec fn color_word(w: Seq<char>) -> Seq<char> {
    std_lowercase(std_trim(w))
}

/// An attribute word applied to a style: blink2, frame and encircle are accepted but
/// change nothing; every other attribute is turned on.
pub open spec fn apply_attribute(s: StyleModel, a: u16) -> StyleModel {
    if a == 32 || a == 1024 || a == 2048 { s } else { with_attr_model(s, a) }
}

/// Parsing the words of a style from word `i` on, starting from style `st`.
pub open spec fn parse_words(ws: Seq<Seq<char>>, i: nat, st: StyleModel) -> StyleOutcome
    decreases ws.len() - i,
{
    if i >= ws.len() {
        StyleOutcome::Parsed(st)
    } else {
        let w = ws[i as int];
        if w == "not"@ {
            if i + 1 >= ws.len() {
                StyleOutcome::Failed(StyleErrorModel::InvalidFormat("'not' requires an attribute"@))
            } else {
                match attribute_of_name(ws[i + 1int]) {
                    Some(a) => parse_words(ws, i + 2, without_attr_model(st, a)),
                    None => StyleOutcome::Failed(StyleErrorModel::UnknownAttribute(ws[i + 1int])),
                }
            }
        } else if w == "on"@ {
            if i + 1 >= ws.len() {
                StyleOutcome::Failed(StyleErrorModel::InvalidFormat("'on' requires a color"@))
            } else if hex_slice_panics(color_word(ws[i + 1int])) {
                StyleOutcome::Panics
            } else {
                match outcome_color(parse_outcome(color_word(ws[i + 1int]))) {
                    Some(c) => parse_words(ws, i + 2, with_bgcolor_model(st, c)),
                    None => StyleOutcome::Failed(
                        StyleErrorModel::BadColor(parse_outcome(color_word(ws[i + 1int])), color_word(ws[i + 1int])),
                    ),
                }
            }
        } else if w == "link"@ {
            if i + 1 >= ws.len() {
                StyleOutcome::Failed(StyleErrorModel::InvalidFormat("'link' requires a URL"@))
            } else {
                parse_words(ws, i + 2, with_link_model(st, ws[i + 1int]))
            }
        } else if attribute_of_name(w) is Some {
            parse_words(ws, i + 1, apply_attribute(st, attribute_of_name(w)->0))
        } else if hex_slice_panics(color_word(w)) {
            StyleOutcome::Panics
        } else {
            match outcome_color(parse_outcome(color_word(w))) {
                Some(c) => parse_words(ws, i + 1, with_color_model(st, c)),
                None => StyleOutcome::Failed(StyleErrorModel::UnknownToken(w)),
            }
        }
    }
}

/// The normalized (trimmed, lowercased) form of a style string.
pub open spec fn normalized_style(s: Seq<char>) -> Seq<char> {
    std_lowercase(std_trim(s))
}

/// The outcome of parsing a style string: empty or `none` gives the null style;
/// otherwise the words are read in turn from an empty style.
pub open spec fn style_outcome(s: Seq<char>) -> StyleOutcome {
    let n = normalized_style(s);
    if n.len() == 0 || n == "none"@ {
        StyleOutcome::Parsed(empty_style_model(true))
    } else {
        parse_words(words_of(n), 0, empty_style_model(false))
    }
}

/// `r` is the result that `o` describes.
pub open spec fn style_result_matches(r: Result<Style, StyleParseError>, o: StyleOutcome) -> bool {
    match o {
        StyleOutcome::Parsed(m) => r matches Ok(s) && s@ == m,
        StyleOutcome::Failed(e) => match e {
            StyleErrorModel::InvalidFormat(m) => r matches Err(StyleParseError::InvalidFormat(x)) && x@ == m,
            StyleErrorModel::UnknownAttribute(m) => r matches Err(StyleParseError::UnknownAttribute(x)) && x@ == m,
            StyleErrorModel::UnknownToken(m) => r matches Err(StyleParseError::UnknownToken(x)) && x@ == m,
            StyleErrorModel::BadColor(co, m) => r matches Err(StyleParseError::ColorError(e)) && color_error_matches(e, co, m),
        },
        StyleOutcome::Panics => false,
    }
}

impl Style {
    /// Read the words of a style from word `i` on; `None` where a color word would
    /// cut a character apart.
    fn parse_words_checked(ws: &Vec<Vec<char>>, i: usize, st: Style) -> (r: Option<Result<Style, StyleParseError>>)
        requires
            i <= ws@.len(),
        ensures
            r is None <==> parse_words(ws@.map_values(|x: Vec<char>| x@), i as nat, st@) is Panics,
            r matches Some(res) ==> style_result_matches(res, parse_words(ws@.map_values(|x: Vec<char>| x@), i as nat, st@)),
        decreases ws@.len() - i,
    {
        let ghost wsv = ws@.map_values(|x: Vec<char>| x@);
        if i >= ws.len() {
            return Some(Ok(st));
        }
        let w = &ws[i];
        assert(wsv[i as int] == w@);
        if chars_eq_str(w, "not") {
            if i + 1 >= ws.len() {
                return Some(Err(StyleParseError::InvalidFormat(owned("'not' requires an attribute"))));
            }
            assert(wsv[i + 1] == ws@[i + 1]@);
            return match parse_attribute(&ws[i + 1]) {
                Some(a) => Self::parse_words_checked(ws, i + 2, st.not(a)),
                None => Some(Err(StyleParseError::UnknownAttribute(string_from_chars(&ws[i + 1])))),
            };
        }
        if chars_eq_str(w, "on") {
            if i + 1 >= ws.len() {
                return Some(Err(StyleParseError::InvalidFormat(owned("'on' requires a color"))));
            }
            assert(wsv[i + 1] == ws@[i + 1]@);
            let word = string_from_chars(&ws[i + 1]);
            return match Color::checked_parse(word.as_str()) {
                None => None,
                Some(Ok(c)) => Self::parse_words_checked(ws, i + 2, st.bgcolor(c)),
                Some(Err(e)) => Some(Err(StyleParseError::ColorError(e))),
            };
        }
        if chars_eq_str(w, "link") {
            if i + 1 >= ws.len() {
                return Some(Err(StyleParseError::InvalidFormat(owned("'link' requires a URL"))));
            }
            assert(wsv[i + 1] == ws@[i + 1]@);
            let url = string_from_chars(&ws[i + 1]);
            return Self::parse_words_checked(ws, i + 2, st.link(url.as_str()));
        }
        match parse_attribute(w) {
            Some(a) => {
                let next = if a == 32 || a == 1024 || a == 2048 { st } else { st.with_attr(a) };
                return Self::parse_words_checked(ws, i + 1, next);
            },
            None => {},
        }
        let word = string_from_chars(w);
        match Color::checked_parse(word.as_str()) {
            None => None,
            Some(Ok(c)) => Self::parse_words_checked(ws, i + 1, st.color(c)),
            Some(Err(_)) => Some(Err(StyleParseError::UnknownToken(string_from_chars(w)))),
        }
    }

    /// Parse a style string, or `None` where reading a color word would cut a
    /// character apart.
    ///
    /// The string is trimmed and lowercased; empty or `none` is the null style;
    /// otherwise its words are read in turn: `not ATTR`, `on COLOR`, `link URL`,
    /// an attribute name, or a foreground color.
    pub fn checked_parse(style: &str) -> (r: Option<Result<Style, StyleParseError>>)
        ensures
            r is None <==> style_outcome(style@) is Panics,
            r matches Some(res) ==> style_result_matches(res, style_outcome(style@)),
    {
        let t = trim(style);
        let normalized = to_lowercase(t);
        let v = chars_of(normalized.as_str());
        if v.len() == 0 || chars_eq_str(&v, "none") {
            return Some(Ok(Style::null()));
        }
        let words = split_whitespace(&v);
        assert(words@.map_values(|x: Vec<char>| x@) =~= words_of(v@));
        Self::parse_words_checked(&words, 0, Style::new())
    }

    /// Parse a style string (see `checked_parse`).
    pub fn parse(style: &str) -> (r: Result<Style, StyleParseError>)
        requires
            !(style_outcome(style@) is Panics),
        ensures
            style_result_matches(r, style_outcome(style@)),
    {
        match Self::checked_parse(style) {
            Some(r) => r,
            None => Err(StyleParseError::InvalidFormat(String::new())),
        }
    }
}

/// A stack of styles for nested style application; the bottom entry is the base
/// style and each entry above is combined onto the one below.
#[derive(Debug)]
pub struct StyleStack {
    stack: Vec<Style>,
}

impl View for StyleStack {
    type V = Seq<Style>;

    closed spec fn view(&self) -> Seq<Style> {
        self.stack@
    }
}

impl StyleStack {
    /// Whether the stack holds at least its base style.
    pub closed spec fn well_formed(&self) -> bool {
        self.stack@.len() >= 1
    }

    /// A stack holding only the base style.
    pub fn new(default: Style) -> (s: Self)
        ensures
            s@ == seq![default],
            s.well_formed(),
    {
        let mut stack = Vec::new();
        stack.push(default);
        StyleStack { stack }
    }

    /// The current combined style.
    pub fn current(&self) -> (s: &Style)
        requires
            self.well_formed(),
        ensures
            *s == self@.last(),
    {
        &self.stack[self.stack.len() - 1]
    }

    /// Push a style, combined onto the current one.
    pub fn push(&mut self, style: Style)
        requires
            old(self).well_formed(),
        ensures
            final(self).well_formed(),
            final(self)@ == old(self)@.push(combine_spec(old(self)@.last(), style)),
    {
        let combined = self.current().combine(&style);
        self.stack.push(combined);
    }

    /// Pop the most recent style (never the base style) and return the current one.
    pub fn pop(&mut self) -> (s: &Style)
        requires
            old(self).well_formed(),
        ensures
            final(self).well_formed(),
            final(self)@ == (if old(self)@.len() > 1 { old(self)@.drop_last() } else { old(self)@ }),
            *s == final(self)@.last(),
    {
        if self.stack.len() > 1 {
            self.stack.pop();
        }
        self.current()
    }

    /// The depth of the stack.
    pub fn len(&self) -> (n: usize)
        ensures
            n == self@.len(),
    {
        self.stack.len()
    }

    /// Whether only the base style is on the stack.
    pub fn is_empty(&self) -> (r: bool)
        ensures
            r == (self@.len() <= 1),
    {
        self.stack.len() <= 1
    }
}

impl Default for StyleStack {
    fn default() -> (s: Self)
        ensures
            s@.len() == 1,
            s@[0]@ == empty_style_model(true),
            s.well_formed(),
    {
        StyleStack::new(Style::null())
    }
}

/// Combining with the null style on either side changes nothing.
pub proof fn law_combine_null_identity(a: StyleModel)
    ensures
        combine_model(a, empty_style_model(true)) == a,
        !a.null ==> combine_model(empty_style_model(true), a) == a,
{
}

/// Combining a style with itself gives it back.
pub proof fn law_combine_idempotent(a: StyleModel)
    ensures
        combine_model(a, a) == a,
{
    let x = a.attributes;
    let s = a.set_attributes;
    assert((x & !s) | (x & s) == x) by (bit_vector);
    assert(s | s == s) by (bit_vector);
}

/// Combining styles is associative.
pub proof fn law_combine_associative(a: StyleModel, b: StyleModel, c: StyleModel)
    ensures
        combine_model(combine_model(a, b), c) == combine_model(a, combine_model(b, c)),
{
    let (aa, sa, ab, sb, ac, sc) = (a.attributes, a.set_attributes, b.attributes, b.set_attributes, c.attributes, c.set_attributes);
    assert((((aa & !sb) | (ab & sb)) & !sc) | (ac & sc) == (aa & !(sb | sc)) | (((ab & !sc) | (ac & sc)) & (sb | sc))) by (bit_vector);
    assert((sa | sb) | sc == sa | (sb | sc)) by (bit_vector);
}

/// In a combination, every attribute the second style sets takes its value from it.
pub proof fn law_combine_second_wins(a: StyleModel, b: StyleModel)
    requires
        !a.null,
        !b.null,
    ensures
        combine_model(a, b).attributes & b.set_attributes == b.attributes & b.set_attributes,
        combine_model(a, b).attributes & !b.set_attributes == a.attributes & !b.set_attributes,
{
    let (x, y, s) = (a.attributes, b.attributes, b.set_attributes);
    assert((((x & !s) | (y & s)) & s) == y & s) by (bit_vector);
    assert((((x & !s) | (y & s)) & !s) == x & !s) by (bit_vector);
}

/// The attribute names a style's display form lists, in order, with their flags.
pub open spec fn display_attr(k: nat) -> (u16, Seq<char>) {
    if k == 0 { (1, "bold"@) }
    else if k == 1 { (2, "dim"@) }
    else if k == 2 { (4, "italic"@) }
    else if k == 3 { (8, "underline"@) }
    else if k == 4 { (16, "blink"@) }
    else if k == 5 { (64, "reverse"@) }
    else if k == 6 { (128, "conceal"@) }
    else if k == 7 { (256, "strike"@) }
    else { (4096, "overline"@) }
}

/// The names of the displayed attributes set in `a`, among the first `k`.
pub open spec fn display_attr_names(a: u16, k: nat) -> Seq<Seq<char>>
    decreases k,
{
    if k == 0 {
        Seq::empty()
    } else {
        let prev = display_attr_names(a, (k - 1) as nat);
        let (flag, name) = display_attr((k - 1) as nat);
        if a & flag == flag { prev.push(name) } else { prev }
    }
}

/// The words of a style's display form: its attributes, its color, `on` and
/// its background color, `link` and its link.
pub open spec fn display_parts(s: StyleModel) -> Seq<Seq<char>> {
    display_attr_names(s.attributes, 9)
        + (match s.color { Some(c) => seq![c.name], None => Seq::empty() })
        + (match s.bgcolor { Some(c) => seq!["on "@ + c.name], None => Seq::empty() })
        + (match s.link { Some(l) => seq!["link "@ + l], None => Seq::empty() })
}

/// The display form of a style: `none` for the null style, otherwise its
/// words joined by spaces.
pub open spec fn style_display(s: StyleModel) -> Seq<char> {
    if s.null { "none"@ } else { join_with(display_parts(s), ' ') }
}

/// The name of the display attribute number `k`.
fn display_attr_of(k: usize) -> (r: (u16, &'static str))
    requires
        k < 9,
    ensures
        r.0 == display_attr(k as nat).0,
        r.1@ == display_attr(k as nat).1,
{
    if k == 0 { (1, "bold") }
    else if k == 1 { (2, "dim") }
    else if k == 2 { (4, "italic") }
    else if k == 3 { (8, "underline") }
    else if k == 4 { (16, "blink") }
    else if k == 5 { (64, "reverse") }
    else if k == 6 { (128, "conceal") }
    else if k == 7 { (256, "strike") }
    else { (4096, "overline") }
}

impl Style {
    /// The display form of the style (see `style_display`).
    pub fn to_display_string(&self) -> (s: String)
        ensures
            s@ == style_display(self@),
    {
        if self.null {
            return owned("none");
        }
        let mut parts: Vec<String> = Vec::new();
        let mut k: usize = 0;
        while k < 9
            invariant
                k <= 9,
                views(parts@) == display_attr_names(self.attributes, k as nat),
            decreases 9 - k,
        {
            let (flag, name) = display_attr_of(k);
            let ghost prev = parts@;
            if self.attributes & flag == flag {
                parts.push(owned(name));
                proof {
                    lemma_views_push(prev, parts@.last());
                }
                assert(views(parts@) =~= views(prev).push(name@));
            }
            k += 1;
        }
        let ghost after_attrs = views(parts@);
        if let Some(c) = &self.color {
            let ghost prev = parts@;
            parts.push(c.name.clone());
            assert(views(parts@) =~= views(prev).push(c.name@));
        }
        let ghost after_color = views(parts@);
        if let Some(c) = &self.bgcolor {
            let mut t = owned("on ");
            push_str(&mut t, c.name.as_str());
            let ghost prev = parts@;
            parts.push(t);
            assert(views(parts@) =~= views(prev).push("on "@ + c.name@));
        }
        if let Some(l) = &self.link {
            let mut t = owned("link ");
            push_str(&mut t, l.as_str());
            let ghost prev = parts@;
            parts.push(t);
            assert(views(parts@) =~= views(prev).push("link "@ + l@));
        }
        assert(views(parts@) =~= display_parts(self@));
        join_strings(&parts, ' ')
    }
}

/// The attribute numbers' codes are all different.
proof fn lemma_attr_codes_distinct(j: nat, k: nat)
    requires
        j < 13,
        k < 13,
        j != k,
    ensures
        attr_code(j) != attr_code(k),
{
}

/// The codes from attribute number `k` on hold the code of attribute `j`
/// exactly when `j` comes at or after `k` and its flag is set.
proof fn lemma_codes_from_hold(a: u16, k: nat, j: nat)
    requires
        k <= 13,
        j < 13,
    ensures
        sgr_codes_from(a, k).contains(attr_code(j)) <==> (k <= j && a & attr_flag(j) == attr_flag(j)),
    decreases 13 - k,
{
    if k < 13 {
        lemma_codes_from_hold(a, k + 1, j);
        let head: Seq<u8> = if a & attr_flag(k) == attr_flag(k) { seq![attr_code(k)] } else { Seq::empty() };
        let rest = sgr_codes_from(a, k + 1);
        assert(sgr_codes_from(a, k) == head + rest);
        if j != k {
            lemma_attr_codes_distinct(j, k);
        }
        if (head + rest).contains(attr_code(j)) {
            let idx = choose|idx: int| 0 <= idx < (head + rest).len() && (head + rest)[idx] == attr_code(j);
            if idx >= head.len() {
                assert(rest[idx - head.len()] == attr_code(j));
            }
        }
        if rest.contains(attr_code(j)) {
            let idx = choose|idx: int| 0 <= idx < rest.len() && rest[idx] == attr_code(j);
            assert((head + rest)[idx + head.len()] == attr_code(j));
        }
        if k == j && a & attr_flag(k) == attr_flag(k) {
            assert((head + rest)[0] == attr_code(j));
        }
    } else {
        assert(sgr_codes_from(a, k) =~= Seq::<u8>::empty());
    }
}

/// Rendering attributes emits the code of an attribute exactly when its flag
/// is set, for every combination of flags: no two attributes share a code.
pub proof fn law_sgr_codes_exact(a: u16, j: nat)
    requires
        j < 13,
    ensures
        sgr_codes_from(a, 0).contains(attr_code(j)) <==> a & attr_flag(j) == attr_flag(j),
{
    lemma_codes_from_hold(a, 0, j);
}

/// Two attribute flags overlap only when they are the same flag.
proof fn lemma_flags_apart(j: u16, k: u16)
    requires
        j < 13,
        k < 13,
    ensures
        ((1u16 << j) & (1u16 << k) == (1u16 << k)) == (j == k),
{
    assert(j < 13 && k < 13 ==> (((1u16 << j) & (1u16 << k) == (1u16 << k)) == (j == k))) by (bit_vector);
}

/// The codes of one attribute flag alone, from attribute number `k` on.
proof fn lemma_single_flag_codes(j: nat, k: nat)
    requires
        j < 13,
        k <= 13,
    ensures
        sgr_codes_from(attr_flag(j), k) == if k <= j { seq![attr_code(j)] } else { Seq::<u8>::empty() },
    decreases 13 - k,
{
    if k < 13 {
        lemma_single_flag_codes(j, k + 1);
        lemma_flags_apart(j as u16, k as u16);
        let head: Seq<u8> = if attr_flag(j) & attr_flag(k) == attr_flag(k) { seq![attr_code(k)] } else { Seq::empty() };
        assert(sgr_codes_from(attr_flag(j), k) == head + sgr_codes_from(attr_flag(j), k + 1));
        if k == j {
            assert(head + Seq::<u8>::empty() =~= seq![attr_code(j)]);
        } else if k < j {
            assert(head =~= Seq::<u8>::empty());
            assert(head + seq![attr_code(j)] =~= seq![attr_code(j)]);
        } else {
            assert(head + Seq::<u8>::empty() =~= Seq::<u8>::empty());
        }
    } else {
        assert(sgr_codes_from(attr_flag(j), k) =~= Seq::<u8>::empty());
    }
}

/// Each attribute flag alone renders its standard SGR code: bold (1) as 1,
/// dim (2) as 2, italic (4) as 3, underline (8) as 4, blink (16) as 5, fast
/// blink (32) as 6, reverse (64) as 7, conceal (128) as 8, strike (256) as 9,
/// double underline (512) as 21, frame (1024) as 51, encircle (2048) as 52,
/// overline (4096) as 53.
pub proof fn law_sgr_code_table()
    ensures
        sgr_codes_from(1, 0) == seq![1u8],
        sgr_codes_from(2, 0) == seq![2u8],
        sgr_codes_from(4, 0) == seq![3u8],
        sgr_codes_from(8, 0) == seq![4u8],
        sgr_codes_from(16, 0) == seq![5u8],
        sgr_codes_from(32, 0) == seq![6u8],
        sgr_codes_from(64, 0) == seq![7u8],
        sgr_codes_from(128, 0) == seq![8u8],
        sgr_codes_from(256, 0) == seq![9u8],
        sgr_codes_from(512, 0) == seq![21u8],
        sgr_codes_from(1024, 0) == seq![51u8],
        sgr_codes_from(2048, 0) == seq![52u8],
        sgr_codes_from(4096, 0) == seq![53u8],
{
    assert(1u16 << 0u16 == 1 && 1u16 << 1u16 == 2 && 1u16 << 2u16 == 4 && 1u16 << 3u16 == 8
        && 1u16 << 4u16 == 16 && 1u16 << 5u16 == 32 && 1u16 << 6u16 == 64 && 1u16 << 7u16 == 128
        && 1u16 << 8u16 == 256 && 1u16 << 9u16 == 512 && 1u16 << 10u16 == 1024
        && 1u16 << 11u16 == 2048 && 1u16 << 12u16 == 4096) by (bit_vector);
    lemma_single_flag_codes(0, 0);
    lemma_single_flag_codes(1, 0);
    lemma_single_flag_codes(2, 0);
    lemma_single_flag_codes(3, 0);
    lemma_single_flag_codes(4, 0);
    lemma_single_flag_codes(5, 0);
    lemma_single_flag_codes(6, 0);
    lemma_single_flag_codes(7, 0);
    lemma_single_flag_codes(8, 0);
    lemma_single_flag_codes(9, 0);
    lemma_single_flag_codes(10, 0);
    lemma_single_flag_codes(11, 0);
    lemma_single_flag_codes(12, 0);
}

} // verus!
