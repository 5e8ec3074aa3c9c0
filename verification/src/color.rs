//! Color system for terminal rendering: 4-bit ANSI colors, 8-bit (256) colors
//! and 24-bit true colors, with downgrading to less capable color systems.
use vstd::prelude::*;
use crate::strings::{std_lowercase, std_trim, to_lowercase, trim};
use crate::text_ops::{
    chars_eq_str, chars_of, decimal, digit_char, digit_to_char, owned, push_char, push_decimal,
    push_str, starts_with_at,
};

verus! {

/// RGB color triplet with components 0-255.
#[derive(Debug, Clone, Copy, PartialEq, Eq, Hash, Default, Structural)]
pub struct ColorTriplet {
    /// Red component.
    pub red: u8,
    /// Green component.
    pub green: u8,
    /// Blue component.
    pub blue: u8,
}

/// A lowercase hexadecimal digit for a value below 16.
pub open spec fn hex_digit(d: nat) -> char {
    if d < 10 {
        digit_char(d)
    } else {
        ((d - 10 + 97) as u32) as char
    }
}

/// Two lowercase hexadecimal digits for a byte.
pub open spec fn hex_byte(b: u8) -> Seq<char> {
    seq![hex_digit((b / 16) as nat), hex_digit((b % 16) as nat)]
}

/// The lowercase hexadecimal digit of a value below 16.
fn hex_digit_char(d: u8) -> (c: char)
    requires
        d < 16,
    ensures
        c == hex_digit(d as nat),
{
    if d < 10 {
        digit_to_char(d as usize)
    } else {
        match d {
            10 => 'a',
            11 => 'b',
            12 => 'c',
            13 => 'd',
            14 => 'e',
            _ => 'f',
        }
    }
}

/// Appends the two hexadecimal digits of a byte.
fn push_hex_byte(s: &mut String, b: u8)
    ensures
        final(s)@ == old(s)@ + hex_byte(b),
{
    push_char(s, hex_digit_char(b / 16));
    push_char(s, hex_digit_char(b % 16));
}

impl ColorTriplet {
    /// Create a triplet from RGB components.
    pub fn new(red: u8, green: u8, blue: u8) -> (t: Self)
        ensures
            t == (ColorTriplet { red, green, blue }),
    {
        ColorTriplet { red, green, blue }
    }

    /// CSS-style hex format `#rrggbb` with lowercase digits.
    pub fn hex(&self) -> (s: String)
        ensures
            s@ == seq!['#'] + hex_byte(self.red) + hex_byte(self.green) + hex_byte(self.blue),
    {
        let mut s = String::new();
        push_char(&mut s, '#');
        push_hex_byte(&mut s, self.red);
        push_hex_byte(&mut s, self.green);
        push_hex_byte(&mut s, self.blue);
        s
    }

    /// CSS-style rgb format `rgb(r,g,b)`.
    pub fn rgb(&self) -> (s: String)
        ensures
            s@ == "rgb("@ + decimal(self.red as nat) + ","@ + decimal(self.green as nat) + ","@
                + decimal(self.blue as nat) + ")"@,
    {
        let mut s = String::new();
        push_str(&mut s, "rgb(");
        push_decimal(&mut s, self.red as usize);
        push_str(&mut s, ",");
        push_decimal(&mut s, self.green as usize);
        push_str(&mut s, ",");
        push_decimal(&mut s, self.blue as usize);
        push_str(&mut s, ")");
        assert(s@ == Seq::<char>::empty() + "rgb("@ + decimal(self.red as nat) + ","@ + decimal(
            self.green as nat,
        ) + ","@ + decimal(self.blue as nat) + ")"@);
        assert(Seq::<char>::empty() + "rgb("@ == "rgb("@);
        s
    }

    /// The display form `rgb(r, g, b)`.
    pub fn to_display_string(&self) -> (s: String)
        ensures
            s@ == "rgb("@ + decimal(self.red as nat) + ", "@ + decimal(self.green as nat) + ", "@
                + decimal(self.blue as nat) + ")"@,
    {
        let mut s = String::new();
        push_str(&mut s, "rgb(");
        assert(Seq::<char>::empty() + "rgb("@ == "rgb("@);
        push_decimal(&mut s, self.red as usize);
        push_str(&mut s, ", ");
        push_decimal(&mut s, self.green as usize);
        push_str(&mut s, ", ");
        push_decimal(&mut s, self.blue as usize);
        push_str(&mut s, ")");
        s
    }
}

/// Terminal color system capability.
#[derive(Debug, Clone, Copy, PartialEq, Eq, Hash, Default, Structural)]
pub enum ColorSystem {
    /// 4-bit ANSI colors (16 colors).
    #[default]
    Standard,
    /// 8-bit colors (256 colors).
    EightBit,
    /// 24-bit RGB colors.
    TrueColor,
    /// Windows console palette (16 colors).
    Windows,
}

impl ColorSystem {
    /// The name of this color system.
    pub fn name(&self) -> (s: &'static str)
        ensures
            s@ == color_system_name(*self),
    {
        match self {
            ColorSystem::Standard => "standard",
            ColorSystem::EightBit => "256",
            ColorSystem::TrueColor => "truecolor",
            ColorSystem::Windows => "windows",
        }
    }
}

/// The name of a color system.
pub open spec fn color_system_name(c: ColorSystem) -> Seq<char> {
    match c {
        ColorSystem::Standard => "standard"@,
        ColorSystem::EightBit => "256"@,
        ColorSystem::TrueColor => "truecolor"@,
        ColorSystem::Windows => "windows"@,
    }
}

/// Kind of color held by a `Color`.
#[derive(Debug, Clone, Copy, PartialEq, Eq, Hash, Default, Structural)]
pub enum ColorType {
    /// Default terminal color.
    #[default]
    Default,
    /// 4-bit ANSI standard color (0-15).
    Standard,
    /// 8-bit color (0-255).
    EightBit,
    /// 24-bit RGB color.
    TrueColor,
    /// Windows console color (0-15).
    Windows,
}

/// A terminal color.
#[derive(Debug, PartialEq, Eq, Hash)]
pub struct Color {
    /// Name of the color (the parsed input, or a generated name).
    pub name: String,
    /// Type of color.
    pub color_type: ColorType,
    /// Color number (Standard, EightBit, Windows).
    pub number: Option<u8>,
    /// RGB components (TrueColor).
    pub triplet: Option<ColorTriplet>,
}

impl Clone for Color {
    fn clone(&self) -> (c: Self)
        ensures
            c == *self,
    {
        Color {
            name: self.name.clone(),
            color_type: self.color_type,
            number: self.number,
            triplet: self.triplet,
        }
    }
}

/// The mathematical value of a color: its name as characters, and its kind,
/// number and triplet.
pub struct ColorModel {
    /// The name.
    pub name: Seq<char>,
    /// The kind of color.
    pub color_type: ColorType,
    /// The color number.
    pub number: Option<u8>,
    /// The RGB components.
    pub triplet: Option<ColorTriplet>,
}

impl View for Color {
    type V = ColorModel;

    open spec fn view(&self) -> ColorModel {
        ColorModel { name: self.name@, color_type: self.color_type, number: self.number, triplet: self.triplet }
    }
}

/// The default color.
pub open spec fn default_model() -> ColorModel {
    ColorModel { name: "default"@, color_type: ColorType::Default, number: None, triplet: None }
}

/// The color `from_ansi(n)` builds: named `color(n)`, Standard below 16, else EightBit.
pub open spec fn ansi_model(n: u8) -> ColorModel {
    ColorModel {
        name: "color("@ + decimal(n as nat) + ")"@,
        color_type: if n < 16 { ColorType::Standard } else { ColorType::EightBit },
        number: Some(n),
        triplet: None,
    }
}

/// The true color `from_triplet(t)` builds, named by its hex form.
pub open spec fn rgb_model(t: ColorTriplet) -> ColorModel {
    ColorModel {
        name: seq!['#'] + hex_byte(t.red) + hex_byte(t.green) + hex_byte(t.blue),
        color_type: ColorType::TrueColor,
        number: None,
        triplet: Some(t),
    }
}

/// `c` is the default color.
pub open spec fn is_default_color(c: Color) -> bool {
    c@ == default_model()
}

/// `c` is what `Color::from_ansi(n)` builds.
pub open spec fn is_ansi_color(c: Color, n: u8) -> bool {
    c@ == ansi_model(n)
}

/// `c` is what `Color::from_triplet(t)` builds.
pub open spec fn is_rgb_color(c: Color, t: ColorTriplet) -> bool {
    c@ == rgb_model(t)
}

impl Color {
    /// Whether two colors are equal: same name, kind, number and triplet.
    pub fn same_as(&self, other: &Color) -> (r: bool)
        ensures
            r == (self@ == other@),
    {
        let same_number = match (self.number, other.number) {
            (Some(a), Some(b)) => a == b,
            (None, None) => true,
            _ => false,
        };
        let same_triplet = match (self.triplet, other.triplet) {
            (Some(a), Some(b)) => a.red == b.red && a.green == b.green && a.blue == b.blue,
            (None, None) => true,
            _ => false,
        };
        self.name == other.name && self.color_type == other.color_type && same_number && same_triplet
    }
}

impl Color {
    /// The default color (no color applied).
    pub fn default_color() -> (c: Self)
        ensures
            is_default_color(c),
    {
        Color { name: owned("default"), color_type: ColorType::Default, number: None, triplet: None }
    }

    /// A color from an 8-bit number: Standard below 16, EightBit otherwise.
    pub fn from_ansi(number: u8) -> (c: Self)
        ensures
            is_ansi_color(c, number),
    {
        let color_type = if number < 16 { ColorType::Standard } else { ColorType::EightBit };
        let mut name = String::new();
        push_str(&mut name, "color(");
        assert(Seq::<char>::empty() + "color("@ == "color("@);
        push_decimal(&mut name, number as usize);
        push_str(&mut name, ")");
        Color { name, color_type, number: Some(number), triplet: None }
    }

    /// A true color from a triplet, named by its hex form.
    pub fn from_triplet(triplet: ColorTriplet) -> (c: Self)
        ensures
            is_rgb_color(c, triplet),
    {
        Color { name: triplet.hex(), color_type: ColorType::TrueColor, number: None, triplet: Some(triplet) }
    }

    /// A true color from RGB components.
    pub fn from_rgb(red: u8, green: u8, blue: u8) -> (c: Self)
        ensures
            is_rgb_color(c, ColorTriplet { red, green, blue }),
    {
        Self::from_triplet(ColorTriplet::new(red, green, blue))
    }

    /// The native color system of this color.
    pub fn system(&self) -> (s: ColorSystem)
        ensures
            s == color_type_system(self.color_type),
    {
        match self.color_type {
            ColorType::Default => ColorSystem::Standard,
            ColorType::Standard => ColorSystem::Standard,
            ColorType::EightBit => ColorSystem::EightBit,
            ColorType::TrueColor => ColorSystem::TrueColor,
            ColorType::Windows => ColorSystem::Windows,
        }
    }

    /// Whether the color is system-defined (Standard or Windows).
    pub fn is_system_defined(&self) -> (r: bool)
        ensures
            r == (self.color_type == ColorType::Standard || self.color_type == ColorType::Windows),
    {
        match self.color_type {
            ColorType::Standard | ColorType::Windows => true,
            _ => false,
        }
    }

    /// Whether this is the default color.
    pub fn is_default(&self) -> (r: bool)
        ensures
            r == (self.color_type == ColorType::Default),
    {
        match self.color_type {
            ColorType::Default => true,
            _ => false,
        }
    }

    /// The RGB triplet of this color.
    pub fn get_truecolor(&self) -> (t: ColorTriplet)
        ensures
            t == truecolor_spec(*self),
    {
        match self.color_type {
            ColorType::Default => ColorTriplet { red: 0, green: 0, blue: 0 },
            ColorType::TrueColor => match self.triplet {
                Some(t) => t,
                None => ColorTriplet { red: 0, green: 0, blue: 0 },
            },
            ColorType::Standard => match self.number {
                Some(n) => if n < 16 { standard_palette_color(n) } else { ColorTriplet { red: 0, green: 0, blue: 0 } },
                None => ColorTriplet { red: 0, green: 0, blue: 0 },
            },
            ColorType::Windows => match self.number {
                Some(n) => if n < 16 { windows_palette_color(n) } else { ColorTriplet { red: 0, green: 0, blue: 0 } },
                None => ColorTriplet { red: 0, green: 0, blue: 0 },
            },
            ColorType::EightBit => match self.number {
                Some(n) => eight_bit_color(n),
                None => ColorTriplet { red: 0, green: 0, blue: 0 },
            },
        }
    }

    /// The ANSI SGR parameters selecting this color as foreground (or background).
    pub fn get_ansi_codes(&self, foreground: bool) -> (r: Vec<String>)
        requires
            ansi_codes_defined(*self, foreground),
        ensures
            r@.len() == ansi_codes_spec(*self, foreground).len(),
            forall|i: int| 0 <= i < r@.len() ==> #[trigger] r@[i]@ == ansi_codes_spec(*self, foreground)[i],
    {
        let mut v: Vec<String> = Vec::new();
        match self.color_type {
            ColorType::Default => {
                v.push(if foreground { owned("39") } else { owned("49") });
            },
            ColorType::Standard | ColorType::Windows => {
                let number = match self.number { Some(n) => n, None => 0 };
                let code: u8 = if number < 8 {
                    if foreground { 30 + number } else { 40 + number }
                } else {
                    if foreground { 82 + number } else { 92 + number }
                };
                let mut s = String::new();
                push_decimal(&mut s, code as usize);
                assert(Seq::<char>::empty() + decimal(code as nat) == decimal(code as nat));
                v.push(s);
            },
            ColorType::EightBit => {
                let number = match self.number { Some(n) => n, None => 0 };
                v.push(if foreground { owned("38") } else { owned("48") });
                v.push(owned("5"));
                let mut s = String::new();
                push_decimal(&mut s, number as usize);
                assert(Seq::<char>::empty() + decimal(number as nat) == decimal(number as nat));
                v.push(s);
            },
            ColorType::TrueColor => {
                let t = match self.triplet { Some(t) => t, None => ColorTriplet { red: 0, green: 0, blue: 0 } };
                v.push(if foreground { owned("38") } else { owned("48") });
                v.push(owned("2"));
                let mut s1 = String::new();
                push_decimal(&mut s1, t.red as usize);
                assert(Seq::<char>::empty() + decimal(t.red as nat) == decimal(t.red as nat));
                v.push(s1);
                let mut s2 = String::new();
                push_decimal(&mut s2, t.green as usize);
                assert(Seq::<char>::empty() + decimal(t.green as nat) == decimal(t.green as nat));
                v.push(s2);
                let mut s3 = String::new();
                push_decimal(&mut s3, t.blue as usize);
                assert(Seq::<char>::empty() + decimal(t.blue as nat) == decimal(t.blue as nat));
                v.push(s3);
            },
        }
        v
    }

    /// Convert to a color the given color system can show.
    pub fn downgrade(&self, system: ColorSystem) -> (c: Self)
        ensures
            match downgrade_target(*self, system) {
                None => c == *self,
                Some(n) => is_ansi_color(c, n),
            },
            c@ == downgrade_model(self@, system),
    {
        if self.is_default() {
            return self.clone();
        }
        match (self.color_type, system) {
            (ColorType::Standard, _) | (ColorType::Windows, _) => self.clone(),
            (ColorType::EightBit, ColorSystem::EightBit) | (ColorType::EightBit, ColorSystem::TrueColor) => self.clone(),
            (ColorType::TrueColor, ColorSystem::TrueColor) => self.clone(),
            (ColorType::TrueColor, ColorSystem::EightBit) => {
                let t = match self.triplet { Some(t) => t, None => ColorTriplet { red: 0, green: 0, blue: 0 } };
                Self::from_ansi(rgb_to_eight_bit(t))
            },
            (ColorType::TrueColor, _) => {
                let t = match self.triplet { Some(t) => t, None => ColorTriplet { red: 0, green: 0, blue: 0 } };
                Self::from_ansi(rgb_to_standard(t))
            },
            (ColorType::EightBit, _) => {
                let t = self.get_truecolor();
                Self::from_ansi(rgb_to_standard(t))
            },
            _ => self.clone(),
        }
    }

    /// The display form of a color: its name.
    pub fn to_display_string(&self) -> (s: String)
        ensures
            s@ == self.name@,
    {
        self.name.clone()
    }
}

impl Default for Color {
    fn default() -> (c: Self)
        ensures
            is_default_color(c),
    {
        Color::default_color()
    }
}

/// The native color system of a color type.
pub open spec fn color_type_system(t: ColorType) -> ColorSystem {
    match t {
        ColorType::Default => ColorSystem::Standard,
        ColorType::Standard => ColorSystem::Standard,
        ColorType::EightBit => ColorSystem::EightBit,
        ColorType::TrueColor => ColorSystem::TrueColor,
        ColorType::Windows => ColorSystem::Windows,
    }
}

/// Black.
pub open spec fn black() -> ColorTriplet {
    ColorTriplet { red: 0, green: 0, blue: 0 }
}

/// The RGB triplet a color shows.
pub open spec fn truecolor_spec(c: Color) -> ColorTriplet {
    model_truecolor(c@)
}

/// The RGB triplet a color value shows.
pub open spec fn model_truecolor(c: ColorModel) -> ColorTriplet {
    match c.color_type {
        ColorType::Default => black(),
        ColorType::TrueColor => match c.triplet {
            Some(t) => t,
            None => black(),
        },
        ColorType::Standard => match c.number {
            Some(n) => if n < 16 { standard_palette_spec(n as nat) } else { black() },
            None => black(),
        },
        ColorType::Windows => match c.number {
            Some(n) => if n < 16 { windows_palette_spec(n as nat) } else { black() },
            None => black(),
        },
        ColorType::EightBit => match c.number {
            Some(n) => eight_bit_spec(n as nat),
            None => black(),
        },
    }
}

/// The SGR code arithmetic of a Standard or Windows color does not overflow a byte.
pub open spec fn ansi_codes_defined(c: Color, foreground: bool) -> bool {
    model_codes_defined(c@, foreground)
}

/// The SGR code arithmetic of a Standard or Windows color value does not overflow a byte.
pub open spec fn model_codes_defined(c: ColorModel, foreground: bool) -> bool {
    (c.color_type == ColorType::Standard || c.color_type == ColorType::Windows) ==> {
        let n = match c.number { Some(n) => n as int, None => 0 };
        n < 8 || (if foreground { 82 + n } else { 92 + n }) <= 255
    }
}

/// The SGR parameters of a color.
pub open spec fn ansi_codes_spec(c: Color, foreground: bool) -> Seq<Seq<char>> {
    model_codes(c@, foreground)
}

/// The SGR parameters of a color value.
pub open spec fn model_codes(c: ColorModel, foreground: bool) -> Seq<Seq<char>> {
    match c.color_type {
        ColorType::Default => seq![if foreground { "39"@ } else { "49"@ }],
        ColorType::Standard | ColorType::Windows => {
            let n = match c.number { Some(n) => n as nat, None => 0 };
            let code = if n < 8 {
                if foreground { 30 + n } else { 40 + n }
            } else {
                if foreground { 82 + n } else { 92 + n }
            };
            seq![decimal(code as nat)]
        },
        ColorType::EightBit => {
            let n = match c.number { Some(n) => n as nat, None => 0 };
            seq![if foreground { "38"@ } else { "48"@ }, "5"@, decimal(n)]
        },
        ColorType::TrueColor => {
            let t = match c.triplet { Some(t) => t, None => black() };
            seq![
                if foreground { "38"@ } else { "48"@ },
                "2"@,
                decimal(t.red as nat),
                decimal(t.green as nat),
                decimal(t.blue as nat),
            ]
        },
    }
}

/// The color value a downgrade of `c` to `system` gives.
pub open spec fn downgrade_model(c: ColorModel, system: ColorSystem) -> ColorModel {
    match model_downgrade_target(c, system) {
        None => c,
        Some(n) => ansi_model(n),
    }
}

/// The number of the color `downgrade(c, system)` builds with `from_ansi`, or `None`
/// when it returns `c` unchanged.
pub open spec fn downgrade_target(c: Color, system: ColorSystem) -> Option<u8> {
    model_downgrade_target(c@, system)
}

/// The number of the color a downgrade of `c` builds, or `None` when it keeps `c`.
pub open spec fn model_downgrade_target(c: ColorModel, system: ColorSystem) -> Option<u8> {
    let t = match c.triplet { Some(t) => t, None => black() };
    match c.color_type {
        ColorType::Default | ColorType::Standard | ColorType::Windows => None,
        ColorType::EightBit => match system {
            ColorSystem::EightBit | ColorSystem::TrueColor => None,
            _ => Some(rgb_to_standard_spec(model_truecolor(c))),
        },
        ColorType::TrueColor => match system {
            ColorSystem::TrueColor => None,
            ColorSystem::EightBit => Some(rgb_to_eight_bit_spec(t)),
            _ => Some(rgb_to_standard_spec(t)),
        },
    }
}

/// The standard 16-color ANSI palette.
pub open spec fn standard_palette_spec(i: nat) -> ColorTriplet {
    if i == 0 { ColorTriplet { red: 0, green: 0, blue: 0 } }
    else if i == 1 { ColorTriplet { red: 170, green: 0, blue: 0 } }
    else if i == 2 { ColorTriplet { red: 0, green: 170, blue: 0 } }
    else if i == 3 { ColorTriplet { red: 170, green: 85, blue: 0 } }
    else if i == 4 { ColorTriplet { red: 0, green: 0, blue: 170 } }
    else if i == 5 { ColorTriplet { red: 170, green: 0, blue: 170 } }
    else if i == 6 { ColorTriplet { red: 0, green: 170, blue: 170 } }
    else if i == 7 { ColorTriplet { red: 170, green: 170, blue: 170 } }
    else if i == 8 { ColorTriplet { red: 85, green: 85, blue: 85 } }
    else if i == 9 { ColorTriplet { red: 255, green: 85, blue: 85 } }
    else if i == 10 { ColorTriplet { red: 85, green: 255, blue: 85 } }
    else if i == 11 { ColorTriplet { red: 255, green: 255, blue: 85 } }
    else if i == 12 { ColorTriplet { red: 85, green: 85, blue: 255 } }
    else if i == 13 { ColorTriplet { red: 255, green: 85, blue: 255 } }
    else if i == 14 { ColorTriplet { red: 85, green: 255, blue: 255 } }
    else { ColorTriplet { red: 255, green: 255, blue: 255 } }
}

/// The Windows 10+ console palette.
pub open spec fn windows_palette_spec(i: nat) -> ColorTriplet {
    if i == 0 { ColorTriplet { red: 12, green: 12, blue: 12 } }
    else if i == 1 { ColorTriplet { red: 197, green: 15, blue: 31 } }
    else if i == 2 { ColorTriplet { red: 19, green: 161, blue: 14 } }
    else if i == 3 { ColorTriplet { red: 193, green: 156, blue: 0 } }
    else if i == 4 { ColorTriplet { red: 0, green: 55, blue: 218 } }
    else if i == 5 { ColorTriplet { red: 136, green: 23, blue: 152 } }
    else if i == 6 { ColorTriplet { red: 58, green: 150, blue: 221 } }
    else if i == 7 { ColorTriplet { red: 204, green: 204, blue: 204 } }
    else if i == 8 { ColorTriplet { red: 118, green: 118, blue: 118 } }
    else if i == 9 { ColorTriplet { red: 231, green: 72, blue: 86 } }
    else if i == 10 { ColorTriplet { red: 22, green: 198, blue: 12 } }
    else if i == 11 { ColorTriplet { red: 249, green: 241, blue: 165 } }
    else if i == 12 { ColorTriplet { red: 59, green: 120, blue: 255 } }
    else if i == 13 { ColorTriplet { red: 180, green: 0, blue: 158 } }
    else if i == 14 { ColorTriplet { red: 97, green: 214, blue: 214 } }
    else { ColorTriplet { red: 242, green: 242, blue: 242 } }
}

/// Entry `i` (below 16) of the standard palette.
pub fn standard_palette_color(i: u8) -> (t: ColorTriplet)
    requires
        i < 16,
    ensures
        t == standard_palette_spec(i as nat),
{
    match i {
        0 => ColorTriplet { red: 0, green: 0, blue: 0 },
        1 => ColorTriplet { red: 170, green: 0, blue: 0 },
        2 => ColorTriplet { red: 0, green: 170, blue: 0 },
        3 => ColorTriplet { red: 170, green: 85, blue: 0 },
        4 => ColorTriplet { red: 0, green: 0, blue: 170 },
        5 => ColorTriplet { red: 170, green: 0, blue: 170 },
        6 => ColorTriplet { red: 0, green: 170, blue: 170 },
        7 => ColorTriplet { red: 170, green: 170, blue: 170 },
        8 => ColorTriplet { red: 85, green: 85, blue: 85 },
        9 => ColorTriplet { red: 255, green: 85, blue: 85 },
        10 => ColorTriplet { red: 85, green: 255, blue: 85 },
        11 => ColorTriplet { red: 255, green: 255, blue: 85 },
        12 => ColorTriplet { red: 85, green: 85, blue: 255 },
        13 => ColorTriplet { red: 255, green: 85, blue: 255 },
        14 => ColorTriplet { red: 85, green: 255, blue: 255 },
        _ => ColorTriplet { red: 255, green: 255, blue: 255 },
    }
}

/// Entry `i` (below 16) of the Windows palette.
pub fn windows_palette_color(i: u8) -> (t: ColorTriplet)
    requires
        i < 16,
    ensures
        t == windows_palette_spec(i as nat),
{
    match i {
        0 => ColorTriplet { red: 12, green: 12, blue: 12 },
        1 => ColorTriplet { red: 197, green: 15, blue: 31 },
        2 => ColorTriplet { red: 19, green: 161, blue: 14 },
        3 => ColorTriplet { red: 193, green: 156, blue: 0 },
        4 => ColorTriplet { red: 0, green: 55, blue: 218 },
        5 => ColorTriplet { red: 136, green: 23, blue: 152 },
        6 => ColorTriplet { red: 58, green: 150, blue: 221 },
        7 => ColorTriplet { red: 204, green: 204, blue: 204 },
        8 => ColorTriplet { red: 118, green: 118, blue: 118 },
        9 => ColorTriplet { red: 231, green: 72, blue: 86 },
        10 => ColorTriplet { red: 22, green: 198, blue: 12 },
        11 => ColorTriplet { red: 249, green: 241, blue: 165 },
        12 => ColorTriplet { red: 59, green: 120, blue: 255 },
        13 => ColorTriplet { red: 180, green: 0, blue: 158 },
        14 => ColorTriplet { red: 97, green: 214, blue: 214 },
        _ => ColorTriplet { red: 242, green: 242, blue: 242 },
    }
}

/// The six levels of each component in the 6x6x6 color cube.
pub open spec fn cube_level(i: nat) -> u8 {
    if i == 0 { 0 } else if i == 1 { 95 } else if i == 2 { 135 } else if i == 3 { 175 } else if i == 4 { 215 } else { 255 }
}

/// Entry `n` of the 256-color palette: the 16 standard colors, a 6x6x6 color cube
/// (index `16 + 36 r + 6 g + b`) and a 24-step grayscale ramp from 8 in steps of 10.
pub open spec fn eight_bit_spec(n: nat) -> ColorTriplet {
    if n < 16 {
        standard_palette_spec(n)
    } else if n < 232 {
        let k = (n - 16) as nat;
        ColorTriplet { red: cube_level(k / 36), green: cube_level((k / 6) % 6), blue: cube_level(k % 6) }
    } else {
        let g = (8 + (n - 232) * 10) as u8;
        ColorTriplet { red: g, green: g, blue: g }
    }
}

/// A level of the color cube.
fn cube_level_value(i: u8) -> (v: u8)
    requires
        i < 6,
    ensures
        v == cube_level(i as nat),
{
    match i {
        0 => 0,
        1 => 95,
        2 => 135,
        3 => 175,
        4 => 215,
        _ => 255,
    }
}

/// Entry `n` of the 256-color palette.
pub fn eight_bit_color(n: u8) -> (t: ColorTriplet)
    ensures
        t == eight_bit_spec(n as nat),
{
    if n < 16 {
        standard_palette_color(n)
    } else if n < 232 {
        let k = n - 16;
        ColorTriplet {
            red: cube_level_value(k / 36),
            green: cube_level_value((k / 6) % 6),
            blue: cube_level_value(k % 6),
        }
    } else {
        let g: u8 = 8 + (n - 232) * 10;
        ColorTriplet { red: g, green: g, blue: g }
    }
}

/// The whole 256-color palette.
#[allow(non_snake_case)]
pub fn EIGHT_BIT_PALETTE() -> (v: Vec<ColorTriplet>)
    ensures
        v@.len() == 256,
        forall|i: int| 0 <= i < 256 ==> #[trigger] v@[i] == eight_bit_spec(i as nat),
{
    let mut v: Vec<ColorTriplet> = Vec::new();
    let mut i: usize = 0;
    while i < 256
        invariant
            i <= 256,
            v@.len() == i,
            forall|j: int| 0 <= j < i ==> #[trigger] v@[j] == eight_bit_spec(j as nat),
        decreases 256 - i,
    {
        v.push(eight_bit_color(i as u8));
        i += 1;
    }
    v
}

/// The standard 16-color palette.
#[allow(non_snake_case)]
pub fn STANDARD_PALETTE() -> (v: Vec<ColorTriplet>)
    ensures
        v@.len() == 16,
        forall|i: int| 0 <= i < 16 ==> #[trigger] v@[i] == standard_palette_spec(i as nat),
{
    let mut v: Vec<ColorTriplet> = Vec::new();
    let mut i: u8 = 0;
    while i < 16
        invariant
            i <= 16,
            v@.len() == i,
            forall|j: int| 0 <= j < i ==> #[trigger] v@[j] == standard_palette_spec(j as nat),
        decreases 16 - i,
    {
        v.push(standard_palette_color(i));
        i += 1;
    }
    v
}

/// The Windows console palette.
#[allow(non_snake_case)]
pub fn WINDOWS_PALETTE() -> (v: Vec<ColorTriplet>)
    ensures
        v@.len() == 16,
        forall|i: int| 0 <= i < 16 ==> #[trigger] v@[i] == windows_palette_spec(i as nat),
{
    let mut v: Vec<ColorTriplet> = Vec::new();
    let mut i: u8 = 0;
    while i < 16
        invariant
            i <= 16,
            v@.len() == i,
            forall|j: int| 0 <= j < i ==> #[trigger] v@[j] == windows_palette_spec(j as nat),
        decreases 16 - i,
    {
        v.push(windows_palette_color(i));
        i += 1;
    }
    v
}

/// Absolute difference of two numbers.
pub open spec fn abs_diff(a: int, b: int) -> int {
    if a >= b { a - b } else { b - a }
}

/// Weighted ("redmean") distance between two colors.
pub open spec fn color_distance_spec(c1: ColorTriplet, c2: ColorTriplet) -> int {
    let red_mean = (c1.red + c2.red) / 2;
    let rd = abs_diff(c1.red as int, c2.red as int);
    let gd = abs_diff(c1.green as int, c2.green as int);
    let bd = abs_diff(c1.blue as int, c2.blue as int);
    ((512 + red_mean) * rd * rd) / 256 + 4 * gd * gd + ((767 - red_mean) * bd * bd) / 256
}

/// Weighted color distance.
fn color_distance(c1: ColorTriplet, c2: ColorTriplet) -> (d: u32)
    ensures
        d == color_distance_spec(c1, c2),
{
    let r1 = c1.red as u32;
    let g1 = c1.green as u32;
    let b1 = c1.blue as u32;
    let r2 = c2.red as u32;
    let g2 = c2.green as u32;
    let b2 = c2.blue as u32;
    let red_mean = (r1 + r2) / 2;
    let rd = if r1 >= r2 { r1 - r2 } else { r2 - r1 };
    let gd = if g1 >= g2 { g1 - g2 } else { g2 - g1 };
    let bd = if b1 >= b2 { b1 - b2 } else { b2 - b1 };
    assert((512 + red_mean) * rd * rd <= 767 * 255 * 255) by (nonlinear_arith)
        requires
            red_mean <= 255,
            rd <= 255,
    ;
    assert(4 * gd * gd <= 4 * 255 * 255) by (nonlinear_arith)
        requires
            gd <= 255,
    ;
    assert((767 - red_mean) * bd * bd <= 767 * 255 * 255) by (nonlinear_arith)
        requires
            red_mean <= 255,
            bd <= 255,
    ;
    assert((512 + red_mean) * rd <= 767 * 255) by (nonlinear_arith)
        requires
            red_mean <= 255,
            rd <= 255,
    ;
    assert((767 - red_mean) * bd <= 767 * 255) by (nonlinear_arith)
        requires
            red_mean <= 255,
            bd <= 255,
    ;
    assert(gd * gd <= 255 * 255) by (nonlinear_arith)
        requires
            gd <= 255,
    ;
    let ra: u32 = (512 + red_mean) * rd;
    let rw: u32 = ra * rd;
    let ba: u32 = (767 - red_mean) * bd;
    let bw: u32 = ba * bd;
    let red_weight = rw >> 8;
    let green_weight = 4 * gd * gd;
    let blue_weight = bw >> 8;
    assert(rw >> 8 == rw / 256) by (bit_vector);
    assert(bw >> 8 == bw / 256) by (bit_vector);
    red_weight + green_weight + blue_weight
}

/// The nearest of the first `k` standard colors as (index, distance); ties keep the
/// earlier index; no candidate yet gives (0, u32::MAX).
pub open spec fn nearest_standard(t: ColorTriplet, k: nat) -> (nat, int)
    decreases k,
{
    if k == 0 {
        (0, u32::MAX as int)
    } else {
        let prev = nearest_standard(t, (k - 1) as nat);
        let d = color_distance_spec(t, standard_palette_spec((k - 1) as nat));
        if d < prev.1 { ((k - 1) as nat, d) } else { prev }
    }
}

/// Index of the standard palette color nearest to `t`.
pub open spec fn rgb_to_standard_spec(t: ColorTriplet) -> u8 {
    nearest_standard(t, 16).0 as u8
}

/// Convert RGB to the nearest standard 16-color number.
pub fn rgb_to_standard(triplet: ColorTriplet) -> (n: u8)
    ensures
        n == rgb_to_standard_spec(triplet),
        n < 16,
{
    let mut best_index: u8 = 0;
    let mut best_distance: u32 = u32::MAX;
    let mut i: u8 = 0;
    while i < 16
        invariant
            i <= 16,
            (best_index as nat, best_distance as int) == nearest_standard(triplet, i as nat),
            best_index < 16,
        decreases 16 - i,
    {
        let d = color_distance(triplet, standard_palette_color(i));
        if d < best_distance {
            best_distance = d;
            best_index = i;
        }
        i += 1;
    }
    best_index
}

/// Index (0-5) of the color cube level nearest to a component.
pub open spec fn cube_index(v: u8) -> nat {
    if v < 95 {
        if v >= 48 { 1 } else { 0 }
    } else {
        let q = 1 + ((v - 95) + 20) / 40;
        if q > 5 { 5 } else { q as nat }
    }
}

/// Nearest 8-bit color number: colors of low saturation map to the grayscale ramp
/// (near black to 16, near white to 231), others to the color cube. Lightness and
/// saturation are those of HLS, compared in exact integer arithmetic over the
/// component sum `max + min` and difference `max - min`.
pub open spec fn rgb_to_eight_bit_spec(t: ColorTriplet) -> u8 {
    let mx = max3(t.red as int, t.green as int, t.blue as int);
    let mn = min3(t.red as int, t.green as int, t.blue as int);
    let s = mx + mn;
    let d = mx - mn;
    let gray = if d == 0 { true } else if s <= 255 { 20 * d < 3 * s } else { 20 * d < 3 * (510 - s) };
    if gray {
        if s <= 20 {
            16
        } else if s >= 490 {
            231
        } else {
            let gi = (2 * ((5 * s - 102) * 24) + 2346) / 4692int;
            (232 + (if gi > 23 { 23 } else { gi })) as u8
        }
    } else {
        (16 + cube_index(t.red) * 36 + cube_index(t.green) * 6 + cube_index(t.blue)) as u8
    }
}

/// Largest of three numbers.
pub open spec fn max3(a: int, b: int, c: int) -> int {
    if a >= b && a >= c { a } else if b >= c { b } else { c }
}

/// Smallest of three numbers.
pub open spec fn min3(a: int, b: int, c: int) -> int {
    if a <= b && a <= c { a } else if b <= c { b } else { c }
}

/// Index of the cube level nearest to a component.
fn quantize(v: u8) -> (q: usize)
    ensures
        q == cube_index(v),
        q <= 5,
{
    if v < 95 {
        if v >= 48 { 1 } else { 0 }
    } else {
        let q = 1 + ((v as usize - 95) + 20) / 40;
        if q > 5 { 5 } else { q }
    }
}

/// Convert RGB to the nearest 8-bit color number.
pub fn rgb_to_eight_bit(triplet: ColorTriplet) -> (n: u8)
    ensures
        n == rgb_to_eight_bit_spec(triplet),
        n >= 16,
{
    let r = triplet.red as i64;
    let g = triplet.green as i64;
    let b = triplet.blue as i64;
    let mx = if r >= g && r >= b { r } else if g >= b { g } else { b };
    let mn = if r <= g && r <= b { r } else if g <= b { g } else { b };
    let s = mx + mn;
    let d = mx - mn;
    let gray = if d == 0 { true } else if s <= 255 { 20 * d < 3 * s } else { 20 * d < 3 * (510 - s) };
    if gray {
        if s <= 20 {
            16
        } else if s >= 490 {
            231
        } else {
            let gi = (2 * ((5 * s - 102) * 24) + 2346) / (2 * 2346);
            let gi = if gi > 23 { 23 } else { gi };
            (232 + gi) as u8
        }
    } else {
        let ri = quantize(triplet.red);
        let gi = quantize(triplet.green);
        let bi = quantize(triplet.blue);
        (16 + ri * 36 + gi * 6 + bi) as u8
    }
}

/// Whether a character is white space (`char::is_whitespace`): it has the
/// Unicode `White_Space` property, which these code points have: tab, line
/// feed, vertical tab, form feed and carriage return (U+0009 to U+000D), the
/// space, U+0085, U+00A0, U+1680, U+2000 to U+200A, U+2028, U+2029, U+202F,
/// U+205F and U+3000.
#[verifier::opaque]
pub open spec fn std_is_whitespace(c: char) -> bool {
    let n = c as u32;
    ||| 0x09 <= n <= 0x0d
    ||| n == 0x20
    ||| n == 0x85
    ||| n == 0xa0
    ||| n == 0x1680
    ||| 0x2000 <= n <= 0x200a
    ||| n == 0x2028
    ||| n == 0x2029
    ||| n == 0x202f
    ||| n == 0x205f
    ||| n == 0x3000
}

/// Whether a character is white space (see `std_is_whitespace`).
pub fn is_whitespace(c: char) -> (r: bool)
    ensures
        r == std_is_whitespace(c),
        c == ' ' ==> r,
{
    reveal(std_is_whitespace);
    let n = c as u32;
    (0x09 <= n && n <= 0x0d) || n == 0x20 || n == 0x85 || n == 0xa0 || n == 0x1680 || (0x2000 <= n && n <= 0x200a)
        || n == 0x2028 || n == 0x2029 || n == 0x202f || n == 0x205f || n == 0x3000
}

/// An ASCII decimal digit.
pub open spec fn is_digit(c: char) -> bool {
    '0' <= c <= '9'
}

/// Value of an ASCII decimal digit.
pub open spec fn digit_value(c: char) -> nat {
    ((c as u32) - 48) as nat
}

/// Value of a run of ASCII decimal digits.
pub open spec fn digits_value(s: Seq<char>) -> nat
    decreases s.len(),
{
    if s.len() == 0 {
        0
    } else {
        digits_value(s.drop_last()) * 10 + digit_value(s.last())
    }
}

/// The end of the run of white space starting at `i`.
pub open spec fn ws_end(s: Seq<char>, i: nat) -> nat
    decreases s.len() - i,
{
    if i < s.len() && std_is_whitespace(s[i as int]) {
        ws_end(s, i + 1)
    } else {
        i
    }
}

/// The end of the run of ASCII digits starting at `i`.
pub open spec fn digit_end(s: Seq<char>, i: nat) -> nat
    decreases s.len() - i,
{
    if i < s.len() && is_digit(s[i as int]) {
        digit_end(s, i + 1)
    } else {
        i
    }
}

/// The end of a run of at most three digits starting at `i`, if there is one of
/// one to three digits.
pub open spec fn number_end(s: Seq<char>, i: nat) -> Option<nat> {
    let e = digit_end(s, i);
    if e > i && e <= i + 3 { Some(e) } else { None }
}

/// The components of `rgb( r , g , b )` (with optional white space around each
/// number), when the whole string has that form.
pub open spec fn rgb_components(s: Seq<char>) -> Option<(nat, nat, nat)> {
    if s.len() < 4 || s.take(4) != "rgb("@ {
        None
    } else {
        let a0 = ws_end(s, 4);
        match number_end(s, a0) {
            None => None,
            Some(a1) => {
                let b0 = ws_end(s, a1);
                if !(b0 < s.len() && s[b0 as int] == ',') {
                    None
                } else {
                    let c0 = ws_end(s, b0 + 1);
                    match number_end(s, c0) {
                        None => None,
                        Some(c1) => {
                            let d0 = ws_end(s, c1);
                            if !(d0 < s.len() && s[d0 as int] == ',') {
                                None
                            } else {
                                let e0 = ws_end(s, d0 + 1);
                                match number_end(s, e0) {
                                    None => None,
                                    Some(e1) => {
                                        let f0 = ws_end(s, e1);
                                        if f0 + 1 == s.len() && s[f0 as int] == ')' {
                                            Some((
                                                digits_value(s.subrange(a0 as int, a1 as int)),
                                                digits_value(s.subrange(c0 as int, c1 as int)),
                                                digits_value(s.subrange(e0 as int, e1 as int)),
                                            ))
                                        } else {
                                            None
                                        }
                                    },
                                }
                            }
                        },
                    }
                }
            },
        }
    }
}

/// The number of `color(N)` (one to three digits), when the whole string has that form.
pub open spec fn color_number(s: Seq<char>) -> Option<nat> {
    if 8 <= s.len() <= 10 && s.take(6) == "color("@ && s.last() == ')' && digit_end(s, 6) == s.len() - 1 {
        Some(digits_value(s.subrange(6, s.len() - 1)))
    } else {
        None
    }
}

/// Value of a hexadecimal digit (either case).
pub open spec fn hex_value(c: char) -> Option<nat> {
    if '0' <= c <= '9' {
        Some(((c as u32) - 48) as nat)
    } else if 'a' <= c <= 'f' {
        Some(((c as u32) - 87) as nat)
    } else if 'A' <= c <= 'F' {
        Some(((c as u32) - 55) as nat)
    } else {
        None
    }
}

/// What `u8::from_str_radix(_, 16)` gives for two characters: two hex digits, or a
/// plus sign and one hex digit.
pub open spec fn hex_pair(a: char, b: char) -> Option<u8> {
    match (hex_value(a), hex_value(b)) {
        (Some(x), Some(y)) => Some((x * 16 + y) as u8),
        (None, Some(y)) => if a == '+' { Some(y as u8) } else { None },
        _ => None,
    }
}

/// An ASCII character.
pub open spec fn is_ascii_char(c: char) -> bool {
    (c as u32) < 128
}

/// The components of `#rrggbb` (the part after `#`).
pub open spec fn hex_components(h: Seq<char>) -> Option<(u8, u8, u8)> {
    if h.len() == 6 && (forall|i: int| 0 <= i < 6 ==> is_ascii_char(#[trigger] h[i])) {
        match (hex_pair(h[0], h[1]), hex_pair(h[2], h[3]), hex_pair(h[4], h[5])) {
            (Some(r), Some(g), Some(b)) => Some((r, g, b)),
            _ => None,
        }
    } else {
        None
    }
}

/// Whether byte offset `b` falls on a character boundary of `s`.
pub open spec fn is_char_boundary(s: Seq<char>, b: nat) -> bool
    decreases s.len(),
{
    if b == 0 {
        true
    } else if s.len() == 0 {
        false
    } else if crate::cells::utf8_len(s[0]) > b {
        false
    } else {
        is_char_boundary(s.drop_first(), (b - crate::cells::utf8_len(s[0])) as nat)
    }
}

/// Whether parsing a (normalized) color string would slice a `#` hex string
/// inside a character: six bytes after the `#` whose byte offsets 2 or 4 are not
/// character boundaries.
pub open spec fn hex_slice_panics(s: Seq<char>) -> bool {
    s.len() > 0 && s[0] == '#' && crate::cells::byte_len(s.drop_first()) == 6 && !(is_char_boundary(
        s.drop_first(),
        2,
    ) && is_char_boundary(s.drop_first(), 4))
}

/// Error kinds of color parsing.
pub enum ColorParseErrorKind {
    /// Malformed `#` hex color.
    InvalidHex,
    /// `color(N)` with N above 255.
    InvalidColorNumber,
    /// `rgb(...)` with a component above 255.
    InvalidRgb,
    /// Not a known color.
    UnknownColor,
}

/// The outcome of parsing a normalized color string.
pub enum ColorOutcome {
    /// The default color.
    DefaultColor,
    /// A true color.
    Rgb(ColorTriplet),
    /// A color built by `from_ansi`.
    Ansi(u8),
    /// An error, carrying the input.
    Error(ColorParseErrorKind),
}

/// What parsing a normalized (trimmed, lowercased) color string yields.
pub open spec fn parse_outcome(s: Seq<char>) -> ColorOutcome {
    if s.len() == 0 || s == "default"@ {
        ColorOutcome::DefaultColor
    } else if s[0] == '#' {
        match hex_components(s.drop_first()) {
            Some((r, g, b)) => ColorOutcome::Rgb(ColorTriplet { red: r, green: g, blue: b }),
            None => ColorOutcome::Error(ColorParseErrorKind::InvalidHex),
        }
    } else if color_number(s) is Some {
        let n = color_number(s)->0;
        if n <= 255 { ColorOutcome::Ansi(n as u8) } else { ColorOutcome::Error(ColorParseErrorKind::InvalidColorNumber) }
    } else if rgb_components(s) is Some {
        let (r, g, b) = rgb_components(s)->0;
        if r <= 255 && g <= 255 && b <= 255 {
            ColorOutcome::Rgb(ColorTriplet { red: r as u8, green: g as u8, blue: b as u8 })
        } else {
            ColorOutcome::Error(ColorParseErrorKind::InvalidRgb)
        }
    } else {
        match named_color_number(s) {
            Some(n) => ColorOutcome::Ansi(n),
            None => ColorOutcome::Error(ColorParseErrorKind::UnknownColor),
        }
    }
}

/// `r` is the result described by `outcome` for the input `s`.
pub open spec fn parse_result_matches(r: Result<Color, ColorParseError>, outcome: ColorOutcome, s: Seq<char>) -> bool {
    match outcome {
        ColorOutcome::DefaultColor => r matches Ok(c) && is_default_color(c),
        ColorOutcome::Rgb(t) => r matches Ok(c) && is_rgb_color(c, t),
        ColorOutcome::Ansi(n) => r matches Ok(c) && is_ansi_color(c, n),
        ColorOutcome::Error(k) => match k {
            ColorParseErrorKind::InvalidHex => r matches Err(ColorParseError::InvalidHex(m)) && m@ == s,
            ColorParseErrorKind::InvalidColorNumber => r matches Err(ColorParseError::InvalidColorNumber(m)) && m@ == s,
            ColorParseErrorKind::InvalidRgb => r matches Err(ColorParseError::InvalidRgb(m)) && m@ == s,
            ColorParseErrorKind::UnknownColor => r matches Err(ColorParseError::UnknownColor(m)) && m@ == s,
        },
    }
}

/// Error type for color parsing; each variant carries the normalized input.
#[derive(Debug, PartialEq, Eq)]
pub enum ColorParseError {
    /// Malformed `#` hex color.
    InvalidHex(String),
    /// `color(N)` with N above 255.
    InvalidColorNumber(String),
    /// `rgb(...)` with a component above 255.
    InvalidRgb(String),
    /// Not a known color.
    UnknownColor(String),
}

impl Clone for ColorParseError {
    fn clone(&self) -> (e: Self)
        ensures
            e == *self,
    {
        match self {
            ColorParseError::InvalidHex(s) => ColorParseError::InvalidHex(s.clone()),
            ColorParseError::InvalidColorNumber(s) => ColorParseError::InvalidColorNumber(s.clone()),
            ColorParseError::InvalidRgb(s) => ColorParseError::InvalidRgb(s.clone()),
            ColorParseError::UnknownColor(s) => ColorParseError::UnknownColor(s.clone()),
        }
    }
}

/// The message of a color parse error.
pub open spec fn color_error_message(e: ColorParseError) -> Seq<char> {
    match e {
        ColorParseError::InvalidHex(m) => "Invalid hex color: "@ + m@,
        ColorParseError::InvalidColorNumber(m) => "Invalid color number: "@ + m@,
        ColorParseError::InvalidRgb(m) => "Invalid RGB color: "@ + m@,
        ColorParseError::UnknownColor(m) => "Unknown color: "@ + m@,
    }
}

impl ColorParseError {
    /// The error message.
    pub fn to_display_string(&self) -> (s: String)
        ensures
            s@ == color_error_message(*self),
    {
        let (prefix, m) = match self {
            ColorParseError::InvalidHex(m) => ("Invalid hex color: ", m),
            ColorParseError::InvalidColorNumber(m) => ("Invalid color number: ", m),
            ColorParseError::InvalidRgb(m) => ("Invalid RGB color: ", m),
            ColorParseError::UnknownColor(m) => ("Unknown color: ", m),
        };
        let mut s = owned(prefix);
        push_str(&mut s, m.as_str());
        s
    }
}

/// End of the white space run starting at `i`.
fn scan_ws(v: &Vec<char>, i: usize) -> (e: usize)
    requires
        i <= v@.len(),
    ensures
        e == ws_end(v@, i as nat),
        i <= e <= v@.len(),
    decreases v@.len() - i,
{
    if i < v.len() && is_whitespace(v[i]) {
        scan_ws(v, i + 1)
    } else {
        i
    }
}

/// End of the ASCII digit run starting at `i`.
fn scan_digits(v: &Vec<char>, i: usize) -> (e: usize)
    requires
        i <= v@.len(),
    ensures
        e == digit_end(v@, i as nat),
        i <= e <= v@.len(),
    decreases v@.len() - i,
{
    if i < v.len() && '0' <= v[i] && v[i] <= '9' {
        scan_digits(v, i + 1)
    } else {
        i
    }
}

/// Value of the digits `v[from..to]` (at most three of them).
fn digits_to_number(v: &Vec<char>, from: usize, to: usize) -> (n: u16)
    requires
        from <= to <= v@.len(),
        to <= from + 3,
        forall|i: int| from <= i < to ==> is_digit(#[trigger] v@[i]),
    ensures
        n == digits_value(v@.subrange(from as int, to as int)),
        n <= 999,
{
    let mut n: u16 = 0;
    let mut i = from;
    while i < to
        invariant
            from <= i <= to <= v@.len(),
            to <= from + 3,
            forall|k: int| from <= k < to ==> is_digit(#[trigger] v@[k]),
            n == digits_value(v@.subrange(from as int, i as int)),
            n < pow10_bound((i - from) as nat),
        decreases to - i,
    {
        assert(v@.subrange(from as int, i + 1).drop_last() == v@.subrange(from as int, i as int));
        let d = (v[i] as u32 - 48) as u16;
        n = n * 10 + d;
        i += 1;
    }
    n
}

/// An upper bound for a number of `k` digits (at most 3).
pub open spec fn pow10_bound(k: nat) -> int {
    if k == 0 { 1 } else if k == 1 { 10 } else if k == 2 { 100 } else { 1000 }
}

/// The end of a one-to-three-digit number starting at `i`.
fn scan_number(v: &Vec<char>, i: usize) -> (r: Option<usize>)
    requires
        i <= v@.len(),
    ensures
        r == (match number_end(v@, i as nat) {
            Some(e) => Some(e as usize),
            None => None,
        }),
        r matches Some(e) ==> i < e <= v@.len() && e <= i + 3,
{
    let e = scan_digits(v, i);
    if e > i && e - i <= 3 { Some(e) } else { None }
}

/// Every character of a digit run is a digit.
proof fn lemma_digit_run(s: Seq<char>, i: nat)
    requires
        i <= s.len(),
    ensures
        forall|k: int| i <= k < digit_end(s, i) ==> is_digit(#[trigger] s[k]),
        digit_end(s, i) <= s.len(),
        digit_end(s, i) >= i,
    decreases s.len() - i,
{
    if i < s.len() && is_digit(s[i as int]) {
        lemma_digit_run(s, i + 1);
    }
}

/// The components of `rgb(...)`.
fn scan_rgb(v: &Vec<char>) -> (r: Option<(u16, u16, u16)>)
    ensures
        r == (match rgb_components(v@) {
            Some((a, b, c)) => Some((a as u16, b as u16, c as u16)),
            None => None,
        }),
        rgb_components(v@) matches Some((a, b, c)) ==> a <= 999 && b <= 999 && c <= 999,
{
    proof {
        reveal_strlit("rgb(");
    }
    if !starts_with_at(v, 0, "rgb(") {
        assert(v@.len() < 4 || v@.take(4) != "rgb("@) by {
            if v@.len() >= 4 {
                assert(v@.subrange(0, 4) == v@.take(4));
            }
        }
        return None;
    }
    assert(v@.subrange(0, 4) == v@.take(4));
    let a0 = scan_ws(v, 4);
    let a1 = match scan_number(v, a0) { Some(e) => e, None => return None };
    let b0 = scan_ws(v, a1);
    if !(b0 < v.len() && v[b0] == ',') {
        return None;
    }
    let c0 = scan_ws(v, b0 + 1);
    let c1 = match scan_number(v, c0) { Some(e) => e, None => return None };
    let d0 = scan_ws(v, c1);
    if !(d0 < v.len() && v[d0] == ',') {
        return None;
    }
    let e0 = scan_ws(v, d0 + 1);
    let e1 = match scan_number(v, e0) { Some(e) => e, None => return None };
    let f0 = scan_ws(v, e1);
    if !(f0 < v.len() && f0 + 1 == v.len() && v[f0] == ')') {
        return None;
    }
    proof {
        lemma_digit_run(v@, a0 as nat);
        lemma_digit_run(v@, c0 as nat);
        lemma_digit_run(v@, e0 as nat);
    }
    let r = digits_to_number(v, a0, a1);
    let g = digits_to_number(v, c0, c1);
    let b = digits_to_number(v, e0, e1);
    Some((r, g, b))
}

/// The number of `color(N)`.
fn scan_color_number(v: &Vec<char>) -> (r: Option<u16>)
    ensures
        r == (match color_number(v@) {
            Some(n) => Some(n as u16),
            None => None,
        }),
        color_number(v@) matches Some(n) ==> n <= 999,
{
    let len = v.len();
    if !(8 <= len && len <= 10) {
        return None;
    }
    proof {
        reveal_strlit("color(");
    }
    if !starts_with_at(v, 0, "color(") {
        assert(v@.subrange(0, 6) == v@.take(6));
        return None;
    }
    assert(v@.subrange(0, 6) == v@.take(6));
    if v[len - 1] != ')' {
        return None;
    }
    let e = scan_digits(v, 6);
    if e != len - 1 {
        return None;
    }
    proof {
        lemma_digit_run(v@, 6);
    }
    Some(digits_to_number(v, 6, len - 1))
}

/// Value of a hex digit character.
fn hex_value_of(c: char) -> (r: Option<u8>)
    ensures
        r == (match hex_value(c) {
            Some(x) => Some(x as u8),
            None => None,
        }),
        r matches Some(x) ==> x < 16,
{
    if '0' <= c && c <= '9' {
        Some((c as u32 - 48) as u8)
    } else if 'a' <= c && c <= 'f' {
        Some((c as u32 - 87) as u8)
    } else if 'A' <= c && c <= 'F' {
        Some((c as u32 - 55) as u8)
    } else {
        None
    }
}

/// Value of a two-character hex chunk as `u8::from_str_radix(_, 16)` reads it.
fn hex_pair_of(a: char, b: char) -> (r: Option<u8>)
    ensures
        r == hex_pair(a, b),
{
    match (hex_value_of(a), hex_value_of(b)) {
        (Some(x), Some(y)) => Some(x * 16 + y),
        (None, Some(y)) => if a == '+' { Some(y) } else { None },
        _ => None,
    }
}

/// The components of a `#` hex color (the characters after the `#` start at 1).
fn scan_hex(v: &Vec<char>) -> (r: Option<(u8, u8, u8)>)
    requires
        v@.len() > 0,
    ensures
        r == hex_components(v@.drop_first()),
{
    let ghost h = v@.drop_first();
    if v.len() != 7 {
        return None;
    }
    let mut i: usize = 1;
    while i < 7
        invariant
            1 <= i <= 7,
            v@.len() == 7,
            h == v@.drop_first(),
            forall|k: int| 0 <= k < i - 1 ==> is_ascii_char(#[trigger] h[k]),
        decreases 7 - i,
    {
        if (v[i] as u32) >= 128 {
            assert(!is_ascii_char(h[i - 1]));
            return None;
        }
        i += 1;
    }
    match (hex_pair_of(v[1], v[2]), hex_pair_of(v[3], v[4]), hex_pair_of(v[5], v[6])) {
        (Some(r), Some(g), Some(b)) => Some((r, g, b)),
        _ => None,
    }
}

impl Color {
    /// Parse a color string that is already trimmed and lowercased.
    ///
    /// Accepted forms: empty or `default`; `#rrggbb`; `color(N)` with N up to 255;
    /// `rgb(r, g, b)` with components up to 255; a named color.
    pub fn parse_normalized(color: &str) -> (r: Result<Color, ColorParseError>)
        requires
            !hex_slice_panics(color@),
        ensures
            parse_result_matches(r, parse_outcome(color@), color@),
    {
        let v = chars_of(color);
        if v.len() == 0 || chars_eq_str(&v, "default") {
            return Ok(Color::default_color());
        }
        if v[0] == '#' {
            return match scan_hex(&v) {
                Some((r, g, b)) => Ok(Color::from_rgb(r, g, b)),
                None => Err(ColorParseError::InvalidHex(owned(color))),
            };
        }
        match scan_color_number(&v) {
            Some(n) => {
                if n <= 255 {
                    return Ok(Color::from_ansi(n as u8));
                } else {
                    return Err(ColorParseError::InvalidColorNumber(owned(color)));
                }
            },
            None => {},
        }
        match scan_rgb(&v) {
            Some((r, g, b)) => {
                if r <= 255 && g <= 255 && b <= 255 {
                    return Ok(Color::from_rgb(r as u8, g as u8, b as u8));
                } else {
                    return Err(ColorParseError::InvalidRgb(owned(color)));
                }
            },
            None => {},
        }
        match lookup_named_color(&v) {
            Some(n) => Ok(Color::from_ansi(n)),
            None => Err(ColorParseError::UnknownColor(owned(color))),
        }
    }

    /// Parse a color string: trimmed and lowercased, then read as by `parse_normalized`.
    pub fn parse(color: &str) -> (r: Result<Color, ColorParseError>)
        requires
            !hex_slice_panics(std_lowercase(std_trim(color@))),
        ensures
            parse_result_matches(
                r,
                parse_outcome(std_lowercase(std_trim(color@))),
                std_lowercase(std_trim(color@)),
            ),
    {
        let t = trim(color);
        let normalized = to_lowercase(t);
        Color::parse_normalized(normalized.as_str())
    }

    /// Parse a color string as `parse` does, or `None` where reading a `#` hex
    /// string would cut a character apart.
    pub fn checked_parse(color: &str) -> (r: Option<Result<Color, ColorParseError>>)
        ensures
            r is None <==> hex_slice_panics(std_lowercase(std_trim(color@))),
            r matches Some(res) ==> parse_result_matches(
                res,
                parse_outcome(std_lowercase(std_trim(color@))),
                std_lowercase(std_trim(color@)),
            ),
    {
        if Color::parse_would_panic(color) {
            None
        } else {
            Some(Color::parse(color))
        }
    }

    /// Whether parsing `color` would read a `#` hex string across a character
    /// boundary (where `parse` is not defined).
    pub fn parse_would_panic(color: &str) -> (r: bool)
        ensures
            r == hex_slice_panics(std_lowercase(std_trim(color@))),
    {
        let t = trim(color);
        let normalized = to_lowercase(t);
        let v = chars_of(normalized.as_str());
        hex_would_slice_char(&v)
    }
}

/// Whether byte offset `b` (at most 4) falls on a character boundary of `v[from..]`.
fn boundary_at(v: &Vec<char>, from: usize, b: usize) -> (r: bool)
    requires
        from <= v@.len(),
        b <= 4,
    ensures
        r == is_char_boundary(v@.skip(from as int), b as nat),
    decreases v@.len() - from,
{
    if b == 0 {
        return true;
    }
    if from == v.len() {
        return false;
    }
    let n = crate::cells::char_utf8_len(v[from]);
    assert(v@.skip(from as int).drop_first() == v@.skip(from + 1));
    if n > b {
        false
    } else {
        boundary_at(v, from + 1, b - n)
    }
}

/// Byte length of `v[from..]`, capped at 7.
fn capped_byte_len(v: &Vec<char>, from: usize) -> (r: usize)
    requires
        from <= v@.len(),
    ensures
        r == (if crate::cells::byte_len(v@.skip(from as int)) > 7 { 7 } else {
            crate::cells::byte_len(v@.skip(from as int))
        }),
{
    let mut total: usize = 0;
    let mut i: usize = v.len();
    while i > from
        invariant
            from <= i <= v@.len(),
            total == (if crate::cells::byte_len(v@.subrange(i as int, v@.len() as int)) > 7 { 7 } else {
                crate::cells::byte_len(v@.subrange(i as int, v@.len() as int))
            }),
        decreases i - from,
    {
        let ghost rest = v@.subrange(i as int, v@.len() as int);
        assert(v@.subrange(i - 1, v@.len() as int) == seq![v@[i - 1]] + rest);
        proof {
            crate::cells::lemma_byte_len_concat(seq![v@[i - 1]], rest);
            assert(seq![v@[i - 1]].drop_last() =~= Seq::<char>::empty());
            assert(seq![v@[i - 1]].last() == v@[i - 1]);
            assert(crate::cells::byte_len(Seq::<char>::empty()) == 0);
        }
        let n = crate::cells::char_utf8_len(v[i - 1]);
        total = if total + n > 7 { 7 } else { total + n };
        i -= 1;
    }
    assert(v@.subrange(from as int, v@.len() as int) == v@.skip(from as int));
    total
}

/// Whether a normalized color string would make the `#` hex reading cut a character.
fn hex_would_slice_char(v: &Vec<char>) -> (r: bool)
    ensures
        r == hex_slice_panics(v@),
{
    if v.len() == 0 || v[0] != '#' {
        return false;
    }
    assert(v@.skip(1) == v@.drop_first());
    if capped_byte_len(v, 1) != 6 {
        return false;
    }
    !(boundary_at(v, 1, 2) && boundary_at(v, 1, 4))
}

/// The 8-bit color number of a color name (already lowercased), if it is one of the named colors.
pub open spec fn named_color_number(name: Seq<char>) -> Option<u8> {
    if name == "black"@ {
        Some(0u8)
    } else if name == "red"@ {
        Some(1u8)
    } else if name == "green"@ {
        Some(2u8)
    } else if name == "yellow"@ {
        Some(3u8)
    } else if name == "blue"@ {
        Some(4u8)
    } else if name == "magenta"@ {
        Some(5u8)
    } else if name == "cyan"@ {
        Some(6u8)
    } else if name == "white"@ {
        Some(7u8)
    } else if name == "bright_black"@ {
        Some(8u8)
    } else if name == "bright_red"@ {
        Some(9u8)
    } else if name == "bright_green"@ {
        Some(10u8)
    } else if name == "bright_yellow"@ {
        Some(11u8)
    } else if name == "bright_blue"@ {
        Some(12u8)
    } else if name == "bright_magenta"@ {
        Some(13u8)
    } else if name == "bright_cyan"@ {
        Some(14u8)
    } else if name == "bright_white"@ {
        Some(15u8)
    } else if name == "grey"@ {
        Some(8u8)
    } else if name == "gray"@ {
        Some(8u8)
    } else if name == "dark_red"@ {
        Some(52u8)
    } else if name == "dark_green"@ {
        Some(22u8)
    } else if name == "dark_yellow"@ {
        Some(3u8)
    } else if name == "dark_blue"@ {
        Some(18u8)
    } else if name == "dark_magenta"@ {
        Some(90u8)
    } else if name == "dark_cyan"@ {
        Some(36u8)
    } else if name == "navy_blue"@ {
        Some(17u8)
    } else if name == "blue3"@ {
        Some(20u8)
    } else if name == "blue1"@ {
        Some(21u8)
    } else if name == "deep_sky_blue4"@ {
        Some(23u8)
    } else if name == "dodger_blue3"@ {
        Some(26u8)
    } else if name == "dodger_blue2"@ {
        Some(27u8)
    } else if name == "green4"@ {
        Some(28u8)
    } else if name == "spring_green4"@ {
        Some(29u8)
    } else if name == "turquoise4"@ {
        Some(30u8)
    } else if name == "deep_sky_blue3"@ {
        Some(31u8)
    } else if name == "dodger_blue1"@ {
        Some(33u8)
    } else if name == "green3"@ {
        Some(34u8)
    } else if name == "spring_green3"@ {
        Some(35u8)
    } else if name == "light_sea_green"@ {
        Some(37u8)
    } else if name == "deep_sky_blue2"@ {
        Some(38u8)
    } else if name == "deep_sky_blue1"@ {
        Some(39u8)
    } else if name == "spring_green2"@ {
        Some(42u8)
    } else if name == "cyan3"@ {
        Some(43u8)
    } else if name == "dark_turquoise"@ {
        Some(44u8)
    } else if name == "turquoise2"@ {
        Some(45u8)
    } else if name == "green1"@ {
        Some(46u8)
    } else if name == "spring_green1"@ {
        Some(48u8)
    } else if name == "medium_spring_green"@ {
        Some(49u8)
    } else if name == "cyan2"@ {
        Some(50u8)
    } else if name == "cyan1"@ {
        Some(51u8)
    } else if name == "deep_pink4"@ {
        Some(53u8)
    } else if name == "purple4"@ {
        Some(54u8)
    } else if name == "purple3"@ {
        Some(56u8)
    } else if name == "blue_violet"@ {
        Some(57u8)
    } else if name == "orange4"@ {
        Some(58u8)
    } else if name == "grey37"@ {
        Some(59u8)
    } else if name == "medium_purple4"@ {
        Some(60u8)
    } else if name == "slate_blue3"@ {
        Some(62u8)
    } else if name == "royal_blue1"@ {
        Some(63u8)
    } else if name == "chartreuse4"@ {
        Some(64u8)
    } else if name == "dark_sea_green4"@ {
        Some(65u8)
    } else if name == "pale_turquoise4"@ {
        Some(66u8)
    } else if name == "steel_blue"@ {
        Some(67u8)
    } else if name == "steel_blue3"@ {
        Some(68u8)
    } else if name == "cornflower_blue"@ {
        Some(69u8)
    } else if name == "chartreuse3"@ {
        Some(70u8)
    } else if name == "cadet_blue"@ {
        Some(72u8)
    } else if name == "sky_blue3"@ {
        Some(74u8)
    } else if name == "steel_blue1"@ {
        Some(75u8)
    } else if name == "pale_green3"@ {
        Some(77u8)
    } else if name == "sea_green3"@ {
        Some(78u8)
    } else if name == "aquamarine3"@ {
        Some(79u8)
    } else if name == "medium_turquoise"@ {
        Some(80u8)
    } else if name == "chartreuse2"@ {
        Some(82u8)
    } else if name == "sea_green2"@ {
        Some(83u8)
    } else if name == "sea_green1"@ {
        Some(85u8)
    } else if name == "aquamarine1"@ {
        Some(86u8)
    } else if name == "dark_slate_gray2"@ {
        Some(87u8)
    } else if name == "dark_violet"@ {
        Some(128u8)
    } else if name == "purple"@ {
        Some(129u8)
    } else if name == "light_pink4"@ {
        Some(95u8)
    } else if name == "plum4"@ {
        Some(96u8)
    } else if name == "medium_purple3"@ {
        Some(98u8)
    } else if name == "slate_blue1"@ {
        Some(99u8)
    } else if name == "wheat4"@ {
        Some(101u8)
    } else if name == "grey53"@ {
        Some(102u8)
    } else if name == "light_slate_grey"@ {
        Some(103u8)
    } else if name == "medium_purple"@ {
        Some(104u8)
    } else if name == "light_slate_blue"@ {
        Some(105u8)
    } else if name == "dark_olive_green3"@ {
        Some(107u8)
    } else if name == "dark_sea_green"@ {
        Some(108u8)
    } else if name == "light_sky_blue3"@ {
        Some(110u8)
    } else if name == "sky_blue2"@ {
        Some(111u8)
    } else if name == "dark_sea_green3"@ {
        Some(115u8)
    } else if name == "dark_slate_gray3"@ {
        Some(116u8)
    } else if name == "sky_blue1"@ {
        Some(117u8)
    } else if name == "chartreuse1"@ {
        Some(118u8)
    } else if name == "light_green"@ {
        Some(119u8)
    } else if name == "pale_green1"@ {
        Some(121u8)
    } else if name == "dark_slate_gray1"@ {
        Some(123u8)
    } else if name == "red3"@ {
        Some(124u8)
    } else if name == "medium_violet_red"@ {
        Some(126u8)
    } else if name == "magenta3"@ {
        Some(127u8)
    } else if name == "dark_orange3"@ {
        Some(130u8)
    } else if name == "indian_red"@ {
        Some(131u8)
    } else if name == "hot_pink3"@ {
        Some(132u8)
    } else if name == "medium_orchid3"@ {
        Some(133u8)
    } else if name == "medium_orchid"@ {
        Some(134u8)
    } else if name == "medium_purple2"@ {
        Some(135u8)
    } else if name == "dark_goldenrod"@ {
        Some(136u8)
    } else if name == "light_salmon3"@ {
        Some(137u8)
    } else if name == "rosy_brown"@ {
        Some(138u8)
    } else if name == "grey63"@ {
        Some(139u8)
    } else if name == "medium_purple1"@ {
        Some(141u8)
    } else if name == "gold3"@ {
        Some(142u8)
    } else if name == "dark_khaki"@ {
        Some(143u8)
    } else if name == "navajo_white3"@ {
        Some(144u8)
    } else if name == "grey69"@ {
        Some(145u8)
    } else if name == "light_steel_blue3"@ {
        Some(146u8)
    } else if name == "light_steel_blue"@ {
        Some(147u8)
    } else if name == "yellow3"@ {
        Some(148u8)
    } else if name == "dark_sea_green2"@ {
        Some(157u8)
    } else if name == "light_cyan3"@ {
        Some(152u8)
    } else if name == "light_sky_blue1"@ {
        Some(153u8)
    } else if name == "green_yellow"@ {
        Some(154u8)
    } else if name == "dark_olive_green2"@ {
        Some(155u8)
    } else if name == "dark_sea_green1"@ {
        Some(158u8)
    } else if name == "pale_turquoise1"@ {
        Some(159u8)
    } else if name == "deep_pink3"@ {
        Some(162u8)
    } else if name == "magenta2"@ {
        Some(165u8)
    } else if name == "hot_pink2"@ {
        Some(169u8)
    } else if name == "orchid"@ {
        Some(170u8)
    } else if name == "medium_orchid1"@ {
        Some(171u8)
    } else if name == "orange3"@ {
        Some(172u8)
    } else if name == "light_pink3"@ {
        Some(174u8)
    } else if name == "pink3"@ {
        Some(175u8)
    } else if name == "plum3"@ {
        Some(176u8)
    } else if name == "violet"@ {
        Some(177u8)
    } else if name == "light_goldenrod3"@ {
        Some(179u8)
    } else if name == "tan"@ {
        Some(180u8)
    } else if name == "misty_rose3"@ {
        Some(181u8)
    } else if name == "thistle3"@ {
        Some(182u8)
    } else if name == "plum2"@ {
        Some(183u8)
    } else if name == "khaki3"@ {
        Some(185u8)
    } else if name == "light_goldenrod2"@ {
        Some(186u8)
    } else if name == "light_yellow3"@ {
        Some(187u8)
    } else if name == "grey84"@ {
        Some(188u8)
    } else if name == "light_steel_blue1"@ {
        Some(189u8)
    } else if name == "yellow2"@ {
        Some(190u8)
    } else if name == "dark_olive_green1"@ {
        Some(192u8)
    } else if name == "honeydew2"@ {
        Some(194u8)
    } else if name == "light_cyan1"@ {
        Some(195u8)
    } else if name == "red1"@ {
        Some(196u8)
    } else if name == "deep_pink2"@ {
        Some(197u8)
    } else if name == "deep_pink1"@ {
        Some(199u8)
    } else if name == "magenta1"@ {
        Some(201u8)
    } else if name == "orange_red1"@ {
        Some(202u8)
    } else if name == "indian_red1"@ {
        Some(204u8)
    } else if name == "hot_pink"@ {
        Some(206u8)
    } else if name == "dark_orange"@ {
        Some(208u8)
    } else if name == "salmon1"@ {
        Some(209u8)
    } else if name == "light_coral"@ {
        Some(210u8)
    } else if name == "pale_violet_red1"@ {
        Some(211u8)
    } else if name == "orchid2"@ {
        Some(212u8)
    } else if name == "orchid1"@ {
        Some(213u8)
    } else if name == "orange1"@ {
        Some(214u8)
    } else if name == "sandy_brown"@ {
        Some(215u8)
    } else if name == "light_salmon1"@ {
        Some(216u8)
    } else if name == "light_pink1"@ {
        Some(217u8)
    } else if name == "pink1"@ {
        Some(218u8)
    } else if name == "plum1"@ {
        Some(219u8)
    } else if name == "gold1"@ {
        Some(220u8)
    } else if name == "navajo_white1"@ {
        Some(223u8)
    } else if name == "misty_rose1"@ {
        Some(224u8)
    } else if name == "thistle1"@ {
        Some(225u8)
    } else if name == "yellow1"@ {
        Some(226u8)
    } else if name == "light_goldenrod1"@ {
        Some(227u8)
    } else if name == "khaki1"@ {
        Some(228u8)
    } else if name == "wheat1"@ {
        Some(229u8)
    } else if name == "cornsilk1"@ {
        Some(230u8)
    } else if name == "grey100"@ {
        Some(231u8)
    } else if name == "grey3"@ {
        Some(232u8)
    } else if name == "grey7"@ {
        Some(233u8)
    } else if name == "grey11"@ {
        Some(234u8)
    } else if name == "grey15"@ {
        Some(235u8)
    } else if name == "grey19"@ {
        Some(236u8)
    } else if name == "grey23"@ {
        Some(237u8)
    } else if name == "grey27"@ {
        Some(238u8)
    } else if name == "grey30"@ {
        Some(239u8)
    } else if name == "grey35"@ {
        Some(240u8)
    } else if name == "grey39"@ {
        Some(241u8)
    } else if name == "grey42"@ {
        Some(242u8)
    } else if name == "grey46"@ {
        Some(243u8)
    } else if name == "grey50"@ {
        Some(244u8)
    } else if name == "grey54"@ {
        Some(245u8)
    } else if name == "grey58"@ {
        Some(246u8)
    } else if name == "grey62"@ {
        Some(247u8)
    } else if name == "grey66"@ {
        Some(248u8)
    } else if name == "grey70"@ {
        Some(249u8)
    } else if name == "grey74"@ {
        Some(250u8)
    } else if name == "grey78"@ {
        Some(251u8)
    } else if name == "grey82"@ {
        Some(252u8)
    } else if name == "grey85"@ {
        Some(253u8)
    } else if name == "grey89"@ {
        Some(254u8)
    } else if name == "grey93"@ {
        Some(255u8)
    } else {
        None
    }
}

/// The 8-bit color number of a color name (already lowercased).
pub fn lookup_named_color(name: &Vec<char>) -> (r: Option<u8>)
    ensures
        r == named_color_number(name@),
{
    if chars_eq_str(name, "black") {
        Some(0)
    } else if chars_eq_str(name, "red") {
        Some(1)
    } else if chars_eq_str(name, "green") {
        Some(2)
    } else if chars_eq_str(name, "yellow") {
        Some(3)
    } else if chars_eq_str(name, "blue") {
        Some(4)
    } else if chars_eq_str(name, "magenta") {
        Some(5)
    } else if chars_eq_str(name, "cyan") {
        Some(6)
    } else if chars_eq_str(name, "white") {
        Some(7)
    } else if chars_eq_str(name, "bright_black") {
        Some(8)
    } else if chars_eq_str(name, "bright_red") {
        Some(9)
    } else if chars_eq_str(name, "bright_green") {
        Some(10)
    } else if chars_eq_str(name, "bright_yellow") {
        Some(11)
    } else if chars_eq_str(name, "bright_blue") {
        Some(12)
    } else if chars_eq_str(name, "bright_magenta") {
        Some(13)
    } else if chars_eq_str(name, "bright_cyan") {
        Some(14)
    } else if chars_eq_str(name, "bright_white") {
        Some(15)
    } else if chars_eq_str(name, "grey") {
        Some(8)
    } else if chars_eq_str(name, "gray") {
        Some(8)
    } else if chars_eq_str(name, "dark_red") {
        Some(52)
    } else if chars_eq_str(name, "dark_green") {
        Some(22)
    } else if chars_eq_str(name, "dark_yellow") {
        Some(3)
    } else if chars_eq_str(name, "dark_blue") {
        Some(18)
    } else if chars_eq_str(name, "dark_magenta") {
        Some(90)
    } else if chars_eq_str(name, "dark_cyan") {
        Some(36)
    } else if chars_eq_str(name, "navy_blue") {
        Some(17)
    } else if chars_eq_str(name, "blue3") {
        Some(20)
    } else if chars_eq_str(name, "blue1") {
        Some(21)
    } else if chars_eq_str(name, "deep_sky_blue4") {
        Some(23)
    } else if chars_eq_str(name, "dodger_blue3") {
        Some(26)
    } else if chars_eq_str(name, "dodger_blue2") {
        Some(27)
    } else if chars_eq_str(name, "green4") {
        Some(28)
    } else if chars_eq_str(name, "spring_green4") {
        Some(29)
    } else if chars_eq_str(name, "turquoise4") {
        Some(30)
    } else if chars_eq_str(name, "deep_sky_blue3") {
        Some(31)
    } else if chars_eq_str(name, "dodger_blue1") {
        Some(33)
    } else if chars_eq_str(name, "green3") {
        Some(34)
    } else if chars_eq_str(name, "spring_green3") {
        Some(35)
    } else if chars_eq_str(name, "light_sea_green") {
        Some(37)
    } else if chars_eq_str(name, "deep_sky_blue2") {
        Some(38)
    } else if chars_eq_str(name, "deep_sky_blue1") {
        Some(39)
    } else if chars_eq_str(name, "spring_green2") {
        Some(42)
    } else if chars_eq_str(name, "cyan3") {
        Some(43)
    } else if chars_eq_str(name, "dark_turquoise") {
        Some(44)
    } else if chars_eq_str(name, "turquoise2") {
        Some(45)
    } else if chars_eq_str(name, "green1") {
        Some(46)
    } else if chars_eq_str(name, "spring_green1") {
        Some(48)
    } else if chars_eq_str(name, "medium_spring_green") {
        Some(49)
    } else if chars_eq_str(name, "cyan2") {
        Some(50)
    } else if chars_eq_str(name, "cyan1") {
        Some(51)
    } else if chars_eq_str(name, "deep_pink4") {
        Some(53)
    } else if chars_eq_str(name, "purple4") {
        Some(54)
    } else if chars_eq_str(name, "purple3") {
        Some(56)
    } else if chars_eq_str(name, "blue_violet") {
        Some(57)
    } else if chars_eq_str(name, "orange4") {
        Some(58)
    } else if chars_eq_str(name, "grey37") {
        Some(59)
    } else if chars_eq_str(name, "medium_purple4") {
        Some(60)
    } else if chars_eq_str(name, "slate_blue3") {
        Some(62)
    } else if chars_eq_str(name, "royal_blue1") {
        Some(63)
    } else if chars_eq_str(name, "chartreuse4") {
        Some(64)
    } else if chars_eq_str(name, "dark_sea_green4") {
        Some(65)
    } else if chars_eq_str(name, "pale_turquoise4") {
        Some(66)
    } else if chars_eq_str(name, "steel_blue") {
        Some(67)
    } else if chars_eq_str(name, "steel_blue3") {
        Some(68)
    } else if chars_eq_str(name, "cornflower_blue") {
        Some(69)
    } else if chars_eq_str(name, "chartreuse3") {
        Some(70)
    } else if chars_eq_str(name, "cadet_blue") {
        Some(72)
    } else if chars_eq_str(name, "sky_blue3") {
        Some(74)
    } else if chars_eq_str(name, "steel_blue1") {
        Some(75)
    } else if chars_eq_str(name, "pale_green3") {
        Some(77)
    } else if chars_eq_str(name, "sea_green3") {
        Some(78)
    } else if chars_eq_str(name, "aquamarine3") {
        Some(79)
    } else if chars_eq_str(name, "medium_turquoise") {
        Some(80)
    } else if chars_eq_str(name, "chartreuse2") {
        Some(82)
    } else if chars_eq_str(name, "sea_green2") {
        Some(83)
    } else if chars_eq_str(name, "sea_green1") {
        Some(85)
    } else if chars_eq_str(name, "aquamarine1") {
        Some(86)
    } else if chars_eq_str(name, "dark_slate_gray2") {
        Some(87)
    } else if chars_eq_str(name, "dark_violet") {
        Some(128)
    } else if chars_eq_str(name, "purple") {
        Some(129)
    } else if chars_eq_str(name, "light_pink4") {
        Some(95)
    } else if chars_eq_str(name, "plum4") {
        Some(96)
    } else if chars_eq_str(name, "medium_purple3") {
        Some(98)
    } else if chars_eq_str(name, "slate_blue1") {
        Some(99)
    } else if chars_eq_str(name, "wheat4") {
        Some(101)
    } else if chars_eq_str(name, "grey53") {
        Some(102)
    } else if chars_eq_str(name, "light_slate_grey") {
        Some(103)
    } else if chars_eq_str(name, "medium_purple") {
        Some(104)
    } else if chars_eq_str(name, "light_slate_blue") {
        Some(105)
    } else if chars_eq_str(name, "dark_olive_green3") {
        Some(107)
    } else if chars_eq_str(name, "dark_sea_green") {
        Some(108)
    } else if chars_eq_str(name, "light_sky_blue3") {
        Some(110)
    } else if chars_eq_str(name, "sky_blue2") {
        Some(111)
    } else if chars_eq_str(name, "dark_sea_green3") {
        Some(115)
    } else if chars_eq_str(name, "dark_slate_gray3") {
        Some(116)
    } else if chars_eq_str(name, "sky_blue1") {
        Some(117)
    } else if chars_eq_str(name, "chartreuse1") {
        Some(118)
    } else if chars_eq_str(name, "light_green") {
        Some(119)
    } else if chars_eq_str(name, "pale_green1") {
        Some(121)
    } else if chars_eq_str(name, "dark_slate_gray1") {
        Some(123)
    } else if chars_eq_str(name, "red3") {
        Some(124)
    } else if chars_eq_str(name, "medium_violet_red") {
        Some(126)
    } else if chars_eq_str(name, "magenta3") {
        Some(127)
    } else if chars_eq_str(name, "dark_orange3") {
        Some(130)
    } else if chars_eq_str(name, "indian_red") {
        Some(131)
    } else if chars_eq_str(name, "hot_pink3") {
        Some(132)
    } else if chars_eq_str(name, "medium_orchid3") {
        Some(133)
    } else if chars_eq_str(name, "medium_orchid") {
        Some(134)
    } else if chars_eq_str(name, "medium_purple2") {
        Some(135)
    } else if chars_eq_str(name, "dark_goldenrod") {
        Some(136)
    } else if chars_eq_str(name, "light_salmon3") {
        Some(137)
    } else if chars_eq_str(name, "rosy_brown") {
        Some(138)
    } else if chars_eq_str(name, "grey63") {
        Some(139)
    } else if chars_eq_str(name, "medium_purple1") {
        Some(141)
    } else if chars_eq_str(name, "gold3") {
        Some(142)
    } else if chars_eq_str(name, "dark_khaki") {
        Some(143)
    } else if chars_eq_str(name, "navajo_white3") {
        Some(144)
    } else if chars_eq_str(name, "grey69") {
        Some(145)
    } else if chars_eq_str(name, "light_steel_blue3") {
        Some(146)
    } else if chars_eq_str(name, "light_steel_blue") {
        Some(147)
    } else if chars_eq_str(name, "yellow3") {
        Some(148)
    } else if chars_eq_str(name, "dark_sea_green2") {
        Some(157)
    } else if chars_eq_str(name, "light_cyan3") {
        Some(152)
    } else if chars_eq_str(name, "light_sky_blue1") {
        Some(153)
    } else if chars_eq_str(name, "green_yellow") {
        Some(154)
    } else if chars_eq_str(name, "dark_olive_green2") {
        Some(155)
    } else if chars_eq_str(name, "dark_sea_green1") {
        Some(158)
    } else if chars_eq_str(name, "pale_turquoise1") {
        Some(159)
    } else if chars_eq_str(name, "deep_pink3") {
        Some(162)
    } else if chars_eq_str(name, "magenta2") {
        Some(165)
    } else if chars_eq_str(name, "hot_pink2") {
        Some(169)
    } else if chars_eq_str(name, "orchid") {
        Some(170)
    } else if chars_eq_str(name, "medium_orchid1") {
        Some(171)
    } else if chars_eq_str(name, "orange3") {
        Some(172)
    } else if chars_eq_str(name, "light_pink3") {
        Some(174)
    } else if chars_eq_str(name, "pink3") {
        Some(175)
    } else if chars_eq_str(name, "plum3") {
        Some(176)
    } else if chars_eq_str(name, "violet") {
        Some(177)
    } else if chars_eq_str(name, "light_goldenrod3") {
        Some(179)
    } else if chars_eq_str(name, "tan") {
        Some(180)
    } else if chars_eq_str(name, "misty_rose3") {
        Some(181)
    } else if chars_eq_str(name, "thistle3") {
        Some(182)
    } else if chars_eq_str(name, "plum2") {
        Some(183)
    } else if chars_eq_str(name, "khaki3") {
        Some(185)
    } else if chars_eq_str(name, "light_goldenrod2") {
        Some(186)
    } else if chars_eq_str(name, "light_yellow3") {
        Some(187)
    } else if chars_eq_str(name, "grey84") {
        Some(188)
    } else if chars_eq_str(name, "light_steel_blue1") {
        Some(189)
    } else if chars_eq_str(name, "yellow2") {
        Some(190)
    } else if chars_eq_str(name, "dark_olive_green1") {
        Some(192)
    } else if chars_eq_str(name, "honeydew2") {
        Some(194)
    } else if chars_eq_str(name, "light_cyan1") {
        Some(195)
    } else if chars_eq_str(name, "red1") {
        Some(196)
    } else if chars_eq_str(name, "deep_pink2") {
        Some(197)
    } else if chars_eq_str(name, "deep_pink1") {
        Some(199)
    } else if chars_eq_str(name, "magenta1") {
        Some(201)
    } else if chars_eq_str(name, "orange_red1") {
        Some(202)
    } else if chars_eq_str(name, "indian_red1") {
        Some(204)
    } else if chars_eq_str(name, "hot_pink") {
        Some(206)
    } else if chars_eq_str(name, "dark_orange") {
        Some(208)
    } else if chars_eq_str(name, "salmon1") {
        Some(209)
    } else if chars_eq_str(name, "light_coral") {
        Some(210)
    } else if chars_eq_str(name, "pale_violet_red1") {
        Some(211)
    } else if chars_eq_str(name, "orchid2") {
        Some(212)
    } else if chars_eq_str(name, "orchid1") {
        Some(213)
    } else if chars_eq_str(name, "orange1") {
        Some(214)
    } else if chars_eq_str(name, "sandy_brown") {
        Some(215)
    } else if chars_eq_str(name, "light_salmon1") {
        Some(216)
    } else if chars_eq_str(name, "light_pink1") {
        Some(217)
    } else if chars_eq_str(name, "pink1") {
        Some(218)
    } else if chars_eq_str(name, "plum1") {
        Some(219)
    } else if chars_eq_str(name, "gold1") {
        Some(220)
    } else if chars_eq_str(name, "navajo_white1") {
        Some(223)
    } else if chars_eq_str(name, "misty_rose1") {
        Some(224)
    } else if chars_eq_str(name, "thistle1") {
        Some(225)
    } else if chars_eq_str(name, "yellow1") {
        Some(226)
    } else if chars_eq_str(name, "light_goldenrod1") {
        Some(227)
    } else if chars_eq_str(name, "khaki1") {
        Some(228)
    } else if chars_eq_str(name, "wheat1") {
        Some(229)
    } else if chars_eq_str(name, "cornsilk1") {
        Some(230)
    } else if chars_eq_str(name, "grey100") {
        Some(231)
    } else if chars_eq_str(name, "grey3") {
        Some(232)
    } else if chars_eq_str(name, "grey7") {
        Some(233)
    } else if chars_eq_str(name, "grey11") {
        Some(234)
    } else if chars_eq_str(name, "grey15") {
        Some(235)
    } else if chars_eq_str(name, "grey19") {
        Some(236)
    } else if chars_eq_str(name, "grey23") {
        Some(237)
    } else if chars_eq_str(name, "grey27") {
        Some(238)
    } else if chars_eq_str(name, "grey30") {
        Some(239)
    } else if chars_eq_str(name, "grey35") {
        Some(240)
    } else if chars_eq_str(name, "grey39") {
        Some(241)
    } else if chars_eq_str(name, "grey42") {
        Some(242)
    } else if chars_eq_str(name, "grey46") {
        Some(243)
    } else if chars_eq_str(name, "grey50") {
        Some(244)
    } else if chars_eq_str(name, "grey54") {
        Some(245)
    } else if chars_eq_str(name, "grey58") {
        Some(246)
    } else if chars_eq_str(name, "grey62") {
        Some(247)
    } else if chars_eq_str(name, "grey66") {
        Some(248)
    } else if chars_eq_str(name, "grey70") {
        Some(249)
    } else if chars_eq_str(name, "grey74") {
        Some(250)
    } else if chars_eq_str(name, "grey78") {
        Some(251)
    } else if chars_eq_str(name, "grey82") {
        Some(252)
    } else if chars_eq_str(name, "grey85") {
        Some(253)
    } else if chars_eq_str(name, "grey89") {
        Some(254)
    } else if chars_eq_str(name, "grey93") {
        Some(255)
    } else {
        None
    }
}

/// The nearest standard color is one of the 16 standard colors.
pub proof fn lemma_nearest_standard_range(t: ColorTriplet, k: nat)
    requires
        k <= 16,
    ensures
        nearest_standard(t, k).0 < 16,
    decreases k,
{
    if k > 0 {
        lemma_nearest_standard_range(t, (k - 1) as nat);
    }
}

/// Downgrading is idempotent: a downgraded color is already within the
/// color system.
pub proof fn law_downgrade_idempotent(c: ColorModel, system: ColorSystem)
    ensures
        downgrade_model(downgrade_model(c, system), system) == downgrade_model(c, system),
{
    let t = match c.triplet { Some(t) => t, None => black() };
    lemma_nearest_standard_range(model_truecolor(c), 16);
    lemma_nearest_standard_range(t, 16);
}

/// Downgrading to true color changes nothing.
pub proof fn law_downgrade_truecolor_identity(c: ColorModel)
    ensures
        downgrade_model(c, ColorSystem::TrueColor) == c,
{
}

/// The default color survives every downgrade.
pub proof fn law_downgrade_keeps_default(system: ColorSystem)
    ensures
        downgrade_model(default_model(), system) == default_model(),
{
}

/// The weighted distance between two colors never reaches `u32::MAX`.
proof fn lemma_color_distance_bound(c1: ColorTriplet, c2: ColorTriplet)
    ensures
        0 <= color_distance_spec(c1, c2) < u32::MAX,
{
    let red_mean = (c1.red + c2.red) / 2;
    let rd = abs_diff(c1.red as int, c2.red as int);
    let gd = abs_diff(c1.green as int, c2.green as int);
    let bd = abs_diff(c1.blue as int, c2.blue as int);
    assert(0 <= (512 + red_mean) * rd * rd <= 767 * 255 * 255) by (nonlinear_arith)
        requires 0 <= red_mean <= 255, 0 <= rd <= 255;
    assert(0 <= (767 - red_mean) * bd * bd <= 767 * 255 * 255) by (nonlinear_arith)
        requires 0 <= red_mean <= 255, 0 <= bd <= 255;
    assert(0 <= 4 * gd * gd <= 4 * 255 * 255) by (nonlinear_arith)
        requires 0 <= gd <= 255;
    let a = (512 + red_mean) * rd * rd;
    let b = (767 - red_mean) * bd * bd;
    assert(0 <= a / 256 <= 767 * 255 * 255 / 256) by (nonlinear_arith)
        requires 0 <= a <= 767 * 255 * 255;
    assert(0 <= b / 256 <= 767 * 255 * 255 / 256) by (nonlinear_arith)
        requires 0 <= b <= 767 * 255 * 255;
}

/// Among the first `k` standard colors, the running choice is one of them,
/// no other is nearer, and every earlier one is strictly farther.
proof fn lemma_nearest_standard_first(t: ColorTriplet, k: nat)
    requires
        1 <= k,
    ensures
        nearest_standard(t, k).0 < k,
        nearest_standard(t, k).1 == color_distance_spec(t, standard_palette_spec(nearest_standard(t, k).0)),
        forall|j: nat| j < k ==> nearest_standard(t, k).1 <= #[trigger] color_distance_spec(t, standard_palette_spec(j)),
        forall|j: nat| j < nearest_standard(t, k).0 ==> nearest_standard(t, k).1 < #[trigger] color_distance_spec(t, standard_palette_spec(j)),
    decreases k,
{
    let prev = nearest_standard(t, (k - 1) as nat);
    let d = color_distance_spec(t, standard_palette_spec((k - 1) as nat));
    lemma_color_distance_bound(t, standard_palette_spec((k - 1) as nat));
    assert(nearest_standard(t, k) == (if d < prev.1 { ((k - 1) as nat, d) } else { prev }));
    if k > 1 {
        lemma_nearest_standard_first(t, (k - 1) as nat);
        assert forall|j: nat| j < k implies nearest_standard(t, k).1 <= #[trigger] color_distance_spec(t, standard_palette_spec(j)) by {
            if j < k - 1 {
                assert(prev.1 <= color_distance_spec(t, standard_palette_spec(j)));
            }
        }
        assert forall|j: nat| j < nearest_standard(t, k).0 implies nearest_standard(t, k).1 < #[trigger] color_distance_spec(t, standard_palette_spec(j)) by {
            if d < prev.1 {
                assert(prev.1 <= color_distance_spec(t, standard_palette_spec(j)));
            } else {
                assert(prev.1 < color_distance_spec(t, standard_palette_spec(j)));
            }
        }
    } else {
        assert(prev == (0nat, u32::MAX as int));
        assert(nearest_standard(t, k) == (0nat, d));
    }
}

/// The standard color chosen for a triplet is a nearest one, and of the
/// nearest ones the first in palette order.
pub proof fn law_rgb_to_standard_first_nearest(t: ColorTriplet, j: nat)
    requires
        j < 16,
    ensures
        color_distance_spec(t, standard_palette_spec(rgb_to_standard_spec(t) as nat))
            <= color_distance_spec(t, standard_palette_spec(j)),
        j < rgb_to_standard_spec(t) ==> color_distance_spec(t, standard_palette_spec(j))
            > color_distance_spec(t, standard_palette_spec(rgb_to_standard_spec(t) as nat)),
{
    lemma_nearest_standard_first(t, 16);
    assert(nearest_standard(t, 16).0 < 16);
    assert(rgb_to_standard_spec(t) as nat == nearest_standard(t, 16).0);
    assert(nearest_standard(t, 16).1 <= color_distance_spec(t, standard_palette_spec(j)));
    if j < rgb_to_standard_spec(t) {
        assert(nearest_standard(t, 16).1 < color_distance_spec(t, standard_palette_spec(j)));
    }
}

/// Whether `l` is one of the six levels of the 256-color cube (0, 95, 135,
/// 175, 215, 255) and no other level is nearer to `v`.
pub open spec fn nearest_cube_level(v: u8, l: u8) -> bool {
    &&& (l == 0 || l == 95 || l == 135 || l == 175 || l == 215 || l == 255)
    &&& abs_diff(l as int, v as int) <= abs_diff(0, v as int)
    &&& abs_diff(l as int, v as int) <= abs_diff(95, v as int)
    &&& abs_diff(l as int, v as int) <= abs_diff(135, v as int)
    &&& abs_diff(l as int, v as int) <= abs_diff(175, v as int)
    &&& abs_diff(l as int, v as int) <= abs_diff(215, v as int)
    &&& abs_diff(l as int, v as int) <= abs_diff(255, v as int)
}

/// The cube level picked for a component is a nearest one.
proof fn lemma_cube_index_nearest(v: u8)
    ensures
        cube_index(v) <= 5,
        nearest_cube_level(v, cube_level(cube_index(v))),
{
    if v >= 95 {
        let q = 1 + ((v - 95) + 20) / 40;
        if v < 115 {
            assert(q == 1);
        } else if v < 155 {
            assert(q == 2);
        } else if v < 195 {
            assert(q == 3);
        } else if v < 235 {
            assert(q == 4);
        } else {
            assert(q >= 5);
        }
    }
}

/// The color cube entry with coordinates `(a, b, c)` has those levels.
proof fn lemma_cube_entry(a: nat, b: nat, c: nat)
    requires
        a <= 5,
        b <= 5,
        c <= 5,
    ensures
        eight_bit_spec(16 + a * 36 + b * 6 + c) == (ColorTriplet {
            red: cube_level(a),
            green: cube_level(b),
            blue: cube_level(c),
        }),
{
    let k = a * 36 + b * 6 + c;
    assert(k < 216) by (nonlinear_arith)
        requires a <= 5, b <= 5, c <= 5, k == a * 36 + b * 6 + c;
    assert(k / 36 == a && (k / 6) % 6 == b && k % 6 == c) by (nonlinear_arith)
        requires a <= 5, b <= 5, c <= 5, k == a * 36 + b * 6 + c;
}

/// Whenever a color goes to the 6x6x6 cube of the 256-color palette, each
/// component of the chosen entry is a cube level nearest to the same
/// component of the color: red to red, green to green, blue to blue.
pub proof fn law_eight_bit_cube_nearest(t: ColorTriplet)
    ensures
        rgb_to_eight_bit_spec(t) < 232 ==> {
            let e = eight_bit_spec(rgb_to_eight_bit_spec(t) as nat);
            &&& nearest_cube_level(t.red, e.red)
            &&& nearest_cube_level(t.green, e.green)
            &&& nearest_cube_level(t.blue, e.blue)
        },
{
    let mx = max3(t.red as int, t.green as int, t.blue as int);
    let mn = min3(t.red as int, t.green as int, t.blue as int);
    let s = mx + mn;
    let d = mx - mn;
    let gray = if d == 0 { true } else if s <= 255 { 20 * d < 3 * s } else { 20 * d < 3 * (510 - s) };
    lemma_cube_index_nearest(t.red);
    lemma_cube_index_nearest(t.green);
    lemma_cube_index_nearest(t.blue);
    if gray {
        if s <= 20 {
            lemma_cube_entry(0, 0, 0);
            assert(16 + 0nat * 36 + 0nat * 6 + 0nat == 16);
        } else if s >= 490 {
            lemma_cube_entry(5, 5, 5);
            assert(16 + 5nat * 36 + 5nat * 6 + 5nat == 231);
        }
    } else {
        let a = cube_index(t.red);
        let b = cube_index(t.green);
        let c = cube_index(t.blue);
        lemma_cube_entry(a, b, c);
        assert(16 + a * 36 + b * 6 + c <= 231) by (nonlinear_arith)
            requires a <= 5, b <= 5, c <= 5;
        assert(rgb_to_eight_bit_spec(t) as nat == 16 + a * 36 + b * 6 + c);
    }
}

/// A color selects the same color as background that it selects as
/// foreground: the 16 basic colors take SGR 30-37 and 90-97 in front and the
/// same codes plus 10 behind; 256-color and true-color codes differ only in
/// the leading 38 (foreground) or 48 (background); the default color is 39
/// in front and 49 behind.
pub proof fn law_background_mirrors_foreground(c: ColorModel)
    ensures
        (c.color_type == ColorType::Standard || c.color_type == ColorType::Windows) ==> {
            let n = match c.number { Some(n) => n as nat, None => 0 };
            n < 16 ==> exists|f: nat|
                {
                    &&& model_codes(c, true) == seq![#[trigger] decimal(f)]
                    &&& model_codes(c, false) == seq![decimal(f + 10)]
                    &&& (n < 8 ==> f == 30 + n)
                    &&& (8 <= n ==> f == 90 + (n - 8))
                }
        },
        (c.color_type == ColorType::EightBit || c.color_type == ColorType::TrueColor) ==> {
            &&& model_codes(c, true)[0] == "38"@
            &&& model_codes(c, false) == model_codes(c, true).update(0, "48"@)
        },
        c.color_type == ColorType::Default ==> model_codes(c, true) == seq!["39"@] && model_codes(c, false) == seq!["49"@],
{
    if c.color_type == ColorType::Standard || c.color_type == ColorType::Windows {
        let n = match c.number { Some(n) => n as nat, None => 0 };
        let f: nat = if n < 8 { 30 + n } else { 82 + n };
        assert(model_codes(c, true) == seq![decimal(f)]);
    }
    if c.color_type == ColorType::EightBit || c.color_type == ColorType::TrueColor {
        assert(model_codes(c, false) =~= model_codes(c, true).update(0, "48"@));
    }
}

} // verus!
