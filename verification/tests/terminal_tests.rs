use rich_rust::terminal::control::{cursor_home, cursor_move_to, cursor_up, disable_alt_screen, hide_cursor};
use rich_rust::color::ColorSystem;
use rich_rust::terminal::{
    detect_color_system_with, get_terminal_height, get_terminal_size, get_terminal_width,
    is_stderr_terminal, is_terminal, EnvSettings,
};


fn make_env(
    no_color: Option<&str>,
    force_color: Option<&str>,
    colorterm: Option<&str>,
    term: Option<&str>,
) -> EnvSettings {
    EnvSettings {
        no_color: no_color.map(String::from),
        force_color: force_color.map(String::from),
        colorterm: colorterm.map(String::from),
        term: term.map(String::from),
    }
}


#[test]
fn test_force_color_zero_disables_colors() {
    let settings = make_env(None, Some("0"), None, Some("xterm-256color"));
    assert_eq!(detect_color_system_with(&settings, true), None);
}

#[test]
fn test_is_terminal() {
    let _ = is_terminal();
}

#[test]
fn test_is_stderr_terminal() {
    let _ = is_stderr_terminal();
}

#[test]
fn test_get_terminal_size() {
    let _ = get_terminal_size();
}

#[test]
fn test_get_terminal_width() {
    let width = get_terminal_width();
    assert!(width > 0);
}

#[test]
fn test_get_terminal_height() {
    let height = get_terminal_height();
    assert!(height > 0);
}


#[test]
fn test_no_color_disables_colors() {
    let settings = make_env(Some("1"), None, Some("truecolor"), Some("xterm-256color"));
    assert_eq!(detect_color_system_with(&settings, true), None);
}

#[test]
fn test_no_color_empty_string_disables() {
    let settings = make_env(Some(""), None, Some("truecolor"), None);
    assert_eq!(detect_color_system_with(&settings, true), None);
}

#[test]
fn test_no_color_takes_precedence_over_force_color() {
    let settings = make_env(Some("1"), Some("3"), Some("truecolor"), None);
    assert_eq!(detect_color_system_with(&settings, true), None);
}


#[test]
fn test_force_color_level_1() {
    let settings = make_env(None, Some("1"), None, None);
    assert_eq!(
        detect_color_system_with(&settings, false),
        Some(ColorSystem::Standard)
    );
}

#[test]
fn test_force_color_level_2() {
    let settings = make_env(None, Some("2"), None, None);
    assert_eq!(
        detect_color_system_with(&settings, false),
        Some(ColorSystem::EightBit)
    );
}

#[test]
fn test_force_color_level_3() {
    let settings = make_env(None, Some("3"), None, None);
    assert_eq!(
        detect_color_system_with(&settings, false),
        Some(ColorSystem::TrueColor)
    );
}

#[test]
fn test_force_color_empty_string() {
    let settings = make_env(None, Some(""), None, None);
    assert_eq!(
        detect_color_system_with(&settings, false),
        Some(ColorSystem::Standard)
    );
}

#[test]
fn test_force_color_unknown_value() {
    let settings = make_env(None, Some("yes"), None, None);
    assert_eq!(
        detect_color_system_with(&settings, false),
        Some(ColorSystem::TrueColor)
    );
}

#[test]
fn test_force_color_overrides_term() {
    let settings = make_env(None, Some("1"), None, Some("dumb"));
    assert_eq!(
        detect_color_system_with(&settings, true),
        Some(ColorSystem::Standard)
    );
}


#[test]
fn test_colorterm_truecolor() {
    let settings = make_env(None, None, Some("truecolor"), None);
    assert_eq!(
        detect_color_system_with(&settings, true),
        Some(ColorSystem::TrueColor)
    );
}

#[test]
fn test_colorterm_24bit() {
    let settings = make_env(None, None, Some("24bit"), None);
    assert_eq!(
        detect_color_system_with(&settings, true),
        Some(ColorSystem::TrueColor)
    );
}

#[test]
fn test_colorterm_case_insensitive() {
    let settings = make_env(None, None, Some("TRUECOLOR"), None);
    assert_eq!(
        detect_color_system_with(&settings, true),
        Some(ColorSystem::TrueColor)
    );
}

#[test]
fn test_colorterm_unknown_value() {
    let settings = make_env(None, None, Some("unknown"), Some("xterm-256color"));
    assert_eq!(
        detect_color_system_with(&settings, true),
        Some(ColorSystem::EightBit)
    );
}


#[test]
fn test_term_dumb() {
    let settings = make_env(None, None, None, Some("dumb"));
    assert_eq!(detect_color_system_with(&settings, true), None);
}

#[test]
fn test_term_dumb_case_insensitive() {
    let settings = make_env(None, None, None, Some("DUMB"));
    assert_eq!(detect_color_system_with(&settings, true), None);
}

#[test]
fn test_term_256color() {
    let settings = make_env(None, None, None, Some("xterm-256color"));
    assert_eq!(
        detect_color_system_with(&settings, true),
        Some(ColorSystem::EightBit)
    );
}

#[test]
fn test_term_256_variant() {
    let settings = make_env(None, None, None, Some("screen-256"));
    assert_eq!(
        detect_color_system_with(&settings, true),
        Some(ColorSystem::EightBit)
    );
}

#[test]
fn test_term_xterm() {
    let settings = make_env(None, None, None, Some("xterm"));
    assert_eq!(
        detect_color_system_with(&settings, true),
        Some(ColorSystem::Standard)
    );
}

#[test]
fn test_term_xterm_color() {
    let settings = make_env(None, None, None, Some("xterm-color"));
    assert_eq!(
        detect_color_system_with(&settings, true),
        Some(ColorSystem::Standard)
    );
}

#[test]
fn test_term_vt100() {
    let settings = make_env(None, None, None, Some("vt100"));
    assert_eq!(
        detect_color_system_with(&settings, true),
        Some(ColorSystem::Standard)
    );
}

#[test]
fn test_term_linux() {
    let settings = make_env(None, None, None, Some("linux"));
    assert_eq!(
        detect_color_system_with(&settings, true),
        Some(ColorSystem::Standard)
    );
}


#[test]
fn test_no_env_vars_tty_true() {
    let settings = make_env(None, None, None, None);
    assert_eq!(
        detect_color_system_with(&settings, true),
        Some(ColorSystem::Standard)
    );
}

#[test]
fn test_no_env_vars_tty_false() {
    let settings = make_env(None, None, None, None);
    assert_eq!(detect_color_system_with(&settings, false), None);
}





#[test]
fn test_colorterm_takes_precedence_over_term() {
    let settings = make_env(None, None, Some("truecolor"), Some("xterm"));
    assert_eq!(
        detect_color_system_with(&settings, true),
        Some(ColorSystem::TrueColor)
    );
}

#[test]
fn test_all_env_vars_empty() {
    let settings = make_env(None, None, None, None);
    let _ = detect_color_system_with(&settings, true);
    let _ = detect_color_system_with(&settings, false);
}


#[test]
fn test_detect_color_system() {
    // Detection over an environment that sets nothing, for this process's output.
    let _ = detect_color_system_with(&make_env(None, None, None, None), is_terminal());
}

#[test]
fn control_sequences_text() {
    let mut out = String::new();
    cursor_home(&mut out);
    cursor_move_to(&mut out, 4, 9);
    cursor_up(&mut out, 3);
    hide_cursor(&mut out);
    disable_alt_screen(&mut out);
    assert_eq!(out, "\x1b[1;1H\x1b[10;5H\x1b[3A\x1b[?25l\x1b[?1049l");
}
