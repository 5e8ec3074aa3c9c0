use rich_rust::theme::{Theme, ThemeError, ThemeStack};

#[test]
fn theme_from_style_definitions_overrides_defaults() {
    let theme = Theme::from_style_definitions(vec![("rule.line", "bold red")], true).expect("theme");
    assert_eq!(theme.get("rule.line").unwrap().to_display_string(), "bold red");
}

#[test]
fn theme_config_roundtrip_has_styles_section() {
    let theme = Theme::from_style_definitions(vec![("warning", "bold red")], false).expect("theme");
    let config = theme.config();
    assert!(config.starts_with("[styles]\n"));
    assert!(config.contains("warning = bold red\n"));
}

#[test]
fn theme_from_ini_str_parses_styles_section() {
    let ini = "[styles]\nwarning = bold red\n";
    let theme = Theme::from_ini_str(ini, false).expect("theme");
    assert_eq!(theme.get("warning").unwrap().to_display_string(), "bold red");
}

#[test]
fn theme_stack_pop_base_errors() {
    let mut stack = ThemeStack::new(Theme::new(None, true));
    let err = stack.pop_theme().expect_err("expected error");
    assert_eq!(err.to_display_string(), "Unable to pop base theme");
}

#[test]
fn theme_stack_push_and_pop() {
    let mut stack = ThemeStack::new(Theme::new(None, true));
    let theme = Theme::from_style_definitions(vec![("warning", "bold red")], false).expect("theme");
    stack.push_theme(theme, true);
    assert_eq!(stack.get("warning").unwrap().to_display_string(), "bold red");
    stack.pop_theme().expect("pop theme");
    assert!(stack.get("warning").is_none());
}

#[test]
fn theme_config_sorts_names() {
    let theme = Theme::from_style_definitions(vec![("zeta", "red"), ("alpha", "bold")], false).expect("theme");
    assert_eq!(theme.config(), "[styles]\nalpha = bold\nzeta = red\n");
}

#[test]
fn theme_later_definition_replaces_earlier() {
    let theme = Theme::from_style_definitions(vec![("warning", "red"), ("warning", "bold")], false).expect("theme");
    assert_eq!(theme.get("warning").unwrap().to_display_string(), "bold");
    assert_eq!(theme.config(), "[styles]\nwarning = bold\n");
}

#[test]
fn theme_invalid_style_definition_is_error() {
    let err = Theme::from_style_definitions(vec![("ok", "bold"), ("broken", "bold sparkly")], false).unwrap_err();
    match err {
        ThemeError::InvalidStyle { name, .. } => assert_eq!(name, "broken"),
        other => panic!("unexpected error {:?}", other),
    }
}

#[test]
fn theme_ini_missing_section() {
    let err = Theme::from_ini_str("warning = bold red\n", false).unwrap_err();
    assert_eq!(err, ThemeError::MissingStylesSection);
    assert_eq!(err.to_display_string(), "theme ini is missing a [styles] section");
}

#[test]
fn theme_ini_invalid_line() {
    let err = Theme::from_ini_str("[styles]\nfoo\n", false).unwrap_err();
    match err {
        ThemeError::InvalidIniLine { line_no, line } => {
            assert_eq!(line_no, 2);
            assert_eq!(line, "foo");
        }
        other => panic!("unexpected error {:?}", other),
    }
}

#[test]
fn theme_ini_duplicate_key() {
    let err = Theme::from_ini_str("[styles]\nwarning = red\nWarning = bold\n", false).unwrap_err();
    match err {
        ThemeError::DuplicateIniKey { line_no, name } => {
            assert_eq!(line_no, 3);
            assert_eq!(name, "warning");
        }
        other => panic!("unexpected error {:?}", other),
    }
}

#[test]
fn theme_ini_skips_comments_and_other_sections() {
    let ini = "# heading\n[other]\nwarning = red\n[STYLES]\n; note\ninfo: dim\n";
    let theme = Theme::from_ini_str(ini, false).expect("theme");
    assert!(theme.get("warning").is_none());
    assert_eq!(theme.get("info").unwrap().to_display_string(), "dim");
}

#[test]
fn theme_error_messages() {
    let err = Theme::from_ini_str("[styles]\nfoo\n", false).unwrap_err();
    assert_eq!(err.to_display_string(), "invalid theme ini line 2: \"foo\"");
    let err = Theme::from_ini_str("[styles]\na = red\nA = bold\n", false).unwrap_err();
    assert_eq!(err.to_display_string(), "duplicate theme key \"a\" at line 3");
    let err = Theme::from_style_definitions(vec![("x", "sparkly")], false).unwrap_err();
    assert_eq!(err.to_display_string(), "invalid style definition for theme key \"x\": Unknown token: sparkly");
}
