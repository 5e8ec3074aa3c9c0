use rich_rust::color::Color;
use rich_rust::renderables::syntax::{apply_indent_guides, Syntax, SyntaxError};
use rich_rust::style::{AttributeFlags, Attributes, Style};

#[test]
fn test_syntax_new() {
    let syntax = Syntax::new("let x = 1;", "rust");
    assert_eq!(syntax.code, "let x = 1;");
    assert_eq!(syntax.language, "rust");
    assert!(!syntax.line_numbers);
}

#[test]
fn test_syntax_builder() {
    let syntax = Syntax::new("print('hello')", "python")
        .line_numbers(true)
        .start_line(10)
        .theme("base16-ocean.dark")
        .indent_guides(true)
        .tab_size(2)
        .padding(1, 2);

    assert!(syntax.line_numbers);
    assert_eq!(syntax.start_line, 10);
    assert_eq!(syntax.theme_name, "base16-ocean.dark");
    assert!(syntax.indent_guides);
    assert_eq!(syntax.tab_size, 2);
    assert_eq!(syntax.padding, (1, 2));
}

#[test]
fn test_extension_to_language() {
    assert_eq!(Syntax::extension_to_language("rs"), "rust");
    assert_eq!(Syntax::extension_to_language("py"), "python");
    assert_eq!(Syntax::extension_to_language("js"), "javascript");
    assert_eq!(Syntax::extension_to_language("ts"), "typescript");
    assert_eq!(Syntax::extension_to_language("go"), "go");
    assert_eq!(Syntax::extension_to_language("unknown"), "unknown");
}

#[test]
fn test_plain_text() {
    let code = "fn main() {}";
    let syntax = Syntax::new(code, "rust");
    assert_eq!(syntax.plain_text(), code);
}

#[test]
fn test_background_color_override() {
    let syntax = Syntax::new("code", "text").background_color(Color::parse("red").unwrap());
    assert!(syntax.background_color.is_some());
}

#[test]
fn test_start_line_minimum() {
    let syntax = Syntax::new("code", "text").start_line(0);
    assert_eq!(syntax.start_line, 1);
}

#[test]
fn test_tab_size_minimum() {
    let syntax = Syntax::new("code", "text").tab_size(0);
    assert_eq!(syntax.tab_size, 1);
}

#[test]
fn test_default_theme_is_base16_ocean_dark() {
    let syntax = Syntax::new("code", "rust");
    assert_eq!(syntax.theme_name, "base16-ocean.dark");
}

#[test]
fn test_word_wrap_builder() {
    let syntax = Syntax::new("code", "rust").word_wrap(Some(80));
    assert_eq!(syntax.word_wrap, Some(80));

    let syntax2 = Syntax::new("code", "rust").word_wrap(None);
    assert_eq!(syntax2.word_wrap, None);
}

#[test]
fn test_line_number_style_builder() {
    let custom_style = Style::new()
        .bold()
        .color_str("cyan")
        .expect("cyan should be a valid color");
    let syntax = Syntax::new("code", "rust").line_number_style(custom_style);
    assert!(syntax.line_number_style.attributes.contains(Attributes::BOLD));
}

#[test]
fn extension_lookup_ignores_case_but_keeps_unknown_as_given() {
    assert_eq!(Syntax::extension_to_language("RS"), "rust");
    assert_eq!(Syntax::extension_to_language("Hpp"), "c++");
    assert_eq!(Syntax::extension_to_language("Weird"), "Weird");
}

#[test]
fn indent_guides_mark_each_tab_stop_of_the_indent() {
    assert_eq!(apply_indent_guides("    x", 4), "\u{2502}   x");
    assert_eq!(apply_indent_guides("        y", 4), "\u{2502}   \u{2502}   y");
    assert_eq!(apply_indent_guides("  z", 4), "  z");
    assert_eq!(apply_indent_guides("", 4), "");
}

#[test]
fn syntax_error_messages() {
    assert_eq!(
        SyntaxError::UnknownLanguage("zz".to_string()).to_display_string(),
        "Unknown language: zz"
    );
    assert_eq!(
        SyntaxError::UnknownTheme("t".to_string()).to_display_string(),
        "Unknown theme: t"
    );
    assert_eq!(SyntaxError::IoError("e".to_string()).to_display_string(), "IO error: e");
}
