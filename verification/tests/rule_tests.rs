use rich_rust::renderables::rule::{ascii_rule, double_rule, heavy_rule, Rule};


#[test]
fn test_rule_no_title() {
    let rule = Rule::new();
    let segments = rule.render(10);
    assert!(!segments.is_empty());
    let text: String = segments.iter().map(|s| s.text.as_str()).collect();
    assert!(text.contains('\u{2500}')); // ─
}

#[test]
fn test_rule_with_title() {
    let rule = Rule::with_title("Test");
    let segments = rule.render(20);
    let text: String = segments.iter().map(|s| s.text.as_str()).collect();
    assert!(text.contains("Test"));
    assert!(text.contains('\u{2500}')); // ─
}

#[test]
fn test_rule_custom_char() {
    let rule = Rule::new().character("=");
    let segments = rule.render(10);
    let text: String = segments.iter().map(|s| s.text.as_str()).collect();
    assert!(text.contains('='));
}

#[test]
fn test_rule_alignment() {
    let rule = Rule::with_title("X").align_left();
    let plain = rule.render_plain(20);
    let parts: Vec<&str> = plain.trim().split(" X ").collect();
    assert_eq!(parts.len(), 2);
    assert!(parts[0].len() < parts[1].len());
}

#[test]
fn test_ascii_rule() {
    let rule = ascii_rule();
    let segments = rule.render(10);
    let text: String = segments.iter().map(|s| s.text.as_str()).collect();
    assert!(text.contains('-'));
}

#[test]
fn test_heavy_rule() {
    let rule = heavy_rule();
    let segments = rule.render(10);
    let text: String = segments.iter().map(|s| s.text.as_str()).collect();
    assert!(text.contains('\u{2501}')); // ━
}

#[test]
fn rule_narrow_width_shows_only_title() {
    let rule = Rule::with_title("Title");
    let segments = rule.render(8);
    assert_eq!(segments.len(), 2);
    assert_eq!(segments[0].text, " Title ");
    assert_eq!(segments[1].text, "\n");
}

#[test]
fn rule_right_and_center_alignment() {
    let right = Rule::with_title("X").align_right().character("-").render_plain(9);
    assert_eq!(right, "----- X -\n");
    let center = Rule::with_title("X").character("-").render_plain(9);
    assert_eq!(center, "--- X ---\n");
    let double = double_rule().render_plain(3);
    assert_eq!(double, "\u{2550}\u{2550}\u{2550}\n");
}

#[test]
fn rule_zero_width_is_newline() {
    assert_eq!(Rule::new().render_plain(0), "\n");
}
