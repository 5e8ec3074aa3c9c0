//! Terminal detection: dimensions, whether output is a terminal, and which
//! color system the environment asks for.
use vstd::prelude::*;
use crate::color::ColorSystem;
use crate::strings::{std_lowercase, to_lowercase};
use crate::text_ops::{contains_str, has_substring, str_eq};

pub mod control;

verus! {

/// The environment variables that decide color support: `NO_COLOR`,
/// `FORCE_COLOR`, `COLORTERM` and `TERM`, each as set or absent.
#[derive(Debug, PartialEq, Eq)]
pub struct EnvSettings {
    /// `NO_COLOR`.
    pub no_color: Option<String>,
    /// `FORCE_COLOR`.
    pub force_color: Option<String>,
    /// `COLORTERM`.
    pub colorterm: Option<String>,
    /// `TERM`.
    pub term: Option<String>,
}

/// Calls `crossterm::terminal::size`: the terminal's columns and rows, or
/// `None` where it cannot be queried. The answer depends on the terminal the
/// process runs in, so nothing is stated of it.
#[verifier::external_body]
fn query_terminal_size() -> (r: Option<(u16, u16)>) {
    crossterm::terminal::size().ok()
}

/// Get the terminal size (width, height) in cells, or `None` if it cannot be
/// determined.
pub fn get_terminal_size() -> (r: Option<(usize, usize)>)
    ensures
        r matches Some((w, h)) ==> w <= u16::MAX && h <= u16::MAX,
{
    match query_terminal_size() {
        Some((w, h)) => Some((w as usize, h as usize)),
        None => None,
    }
}

/// The width of a terminal size, 80 where the size is unknown.
pub open spec fn width_from_spec(size: Option<(usize, usize)>) -> usize {
    match size {
        Some((w, _)) => w,
        None => 80,
    }
}

/// The height of a terminal size, 24 where the size is unknown.
pub open spec fn height_from_spec(size: Option<(usize, usize)>) -> usize {
    match size {
        Some((_, h)) => h,
        None => 24,
    }
}

/// The width from a terminal size, 80 where the size is unknown.
pub fn width_from_size(size: Option<(usize, usize)>) -> (w: usize)
    ensures
        w == match size { Some((w, _)) => w, None => 80 },
{
    match size {
        Some((w, _)) => w,
        None => 80,
    }
}

/// The height from a terminal size, 24 where the size is unknown.
pub fn height_from_size(size: Option<(usize, usize)>) -> (h: usize)
    ensures
        h == match size { Some((_, h)) => h, None => 24 },
{
    match size {
        Some((_, h)) => h,
        None => 24,
    }
}

/// Get the terminal width in cells; 80 if the width cannot be determined.
pub fn get_terminal_width() -> (w: usize)
    ensures
        exists|s: Option<(usize, usize)>|
            (s matches Some((a, b)) ==> a <= u16::MAX && b <= u16::MAX) && w == #[trigger] width_from_spec(s),
        w <= u16::MAX,
{
    let s = get_terminal_size();
    let w = width_from_size(s);
    assert(w == width_from_spec(s));
    w
}

/// Get the terminal height in rows; 24 if the height cannot be determined.
pub fn get_terminal_height() -> (h: usize)
    ensures
        exists|s: Option<(usize, usize)>|
            (s matches Some((a, b)) ==> a <= u16::MAX && b <= u16::MAX) && h == #[trigger] height_from_spec(s),
        h <= u16::MAX,
{
    let s = get_terminal_size();
    let h = height_from_size(s);
    assert(h == height_from_spec(s));
    h
}

/// Calls `std::io::IsTerminal::is_terminal` on standard output. The answer
/// depends on where the process's output goes, so nothing is stated of it.
#[verifier::external_body]
pub fn is_terminal() -> (r: bool) {
    std::io::IsTerminal::is_terminal(&std::io::stdout())
}

/// Calls `std::io::IsTerminal::is_terminal` on standard error. The answer
/// depends on where the process's errors go, so nothing is stated of it.
#[verifier::external_body]
pub fn is_stderr_terminal() -> (r: bool) {
    std::io::IsTerminal::is_terminal(&std::io::stderr())
}

/// The characters of an optional string.
pub open spec fn opt_chars(s: Option<String>) -> Option<Seq<char>> {
    match s {
        Some(s) => Some(s@),
        None => None,
    }
}

/// The color system a `FORCE_COLOR` level asks for.
pub open spec fn force_level_system(level: Seq<char>) -> Option<ColorSystem> {
    if level == "0"@ {
        None
    } else if level == "3"@ {
        Some(ColorSystem::TrueColor)
    } else if level == "2"@ {
        Some(ColorSystem::EightBit)
    } else if level == "1"@ || level.len() == 0 {
        Some(ColorSystem::Standard)
    } else {
        Some(ColorSystem::TrueColor)
    }
}

/// The color system that the environment settings and the terminal status ask
/// for: `NO_COLOR` disables colors; `FORCE_COLOR` picks a level; `COLORTERM`
/// (any case) `truecolor` or `24bit` means 24-bit color; `TERM` (any case)
/// `dumb` means none, one with `256` means 256 colors, one with `color`,
/// `xterm` or `vt100` the 16 standard colors; otherwise a terminal gets the
/// standard colors and anything else none.
pub open spec fn detect_spec(env: EnvSettings, is_tty: bool) -> Option<ColorSystem> {
    if env.no_color is Some {
        None
    } else if env.force_color is Some {
        force_level_system(env.force_color->0@)
    } else if env.colorterm is Some && (std_lowercase(env.colorterm->0@) == "truecolor"@
        || std_lowercase(env.colorterm->0@) == "24bit"@) {
        Some(ColorSystem::TrueColor)
    } else if env.term is Some && std_lowercase(env.term->0@) == "dumb"@ {
        None
    } else if env.term is Some && (has_substring(std_lowercase(env.term->0@), "256color"@)
        || has_substring(std_lowercase(env.term->0@), "256"@)) {
        Some(ColorSystem::EightBit)
    } else if env.term is Some && (has_substring(std_lowercase(env.term->0@), "color"@)
        || has_substring(std_lowercase(env.term->0@), "xterm"@)
        || has_substring(std_lowercase(env.term->0@), "vt100"@)) {
        Some(ColorSystem::Standard)
    } else if is_tty {
        Some(ColorSystem::Standard)
    } else {
        None
    }
}

/// The color system for the given environment settings and terminal status
/// (see `detect_spec`).
pub fn detect_color_system_with(env: &EnvSettings, is_tty: bool) -> (r: Option<ColorSystem>)
    ensures
        r == detect_spec(*env, is_tty),
{
    if env.no_color.is_some() {
        return None;
    }
    if let Some(level) = &env.force_color {
        let l = level.as_str();
        if str_eq(l, "0") {
            return None;
        }
        if str_eq(l, "3") {
            return Some(ColorSystem::TrueColor);
        }
        if str_eq(l, "2") {
            return Some(ColorSystem::EightBit);
        }
        if str_eq(l, "1") || l.is_empty() {
            return Some(ColorSystem::Standard);
        }
        return Some(ColorSystem::TrueColor);
    }
    if let Some(colorterm) = &env.colorterm {
        let ct = to_lowercase(colorterm.as_str());
        if str_eq(ct.as_str(), "truecolor") || str_eq(ct.as_str(), "24bit") {
            return Some(ColorSystem::TrueColor);
        }
    }
    if let Some(term) = &env.term {
        let t = to_lowercase(term.as_str());
        if str_eq(t.as_str(), "dumb") {
            return None;
        }
        if contains_str(t.as_str(), "256color") || contains_str(t.as_str(), "256") {
            return Some(ColorSystem::EightBit);
        }
        if contains_str(t.as_str(), "color") || contains_str(t.as_str(), "xterm")
            || contains_str(t.as_str(), "vt100") {
            return Some(ColorSystem::Standard);
        }
    }
    if is_tty {
        Some(ColorSystem::Standard)
    } else {
        None
    }
}

} // verus!
