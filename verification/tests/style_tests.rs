use rich_rust::color::{Color, ColorSystem};
use rich_rust::style::{AttributeFlags, Attributes, Style, StyleStack};


#[test]
fn test_attributes_sgr_codes() {
    let attrs = Attributes::BOLD | Attributes::ITALIC;
    let codes = attrs.to_sgr_codes();
    assert!(codes.contains(&1));
    assert!(codes.contains(&3));
}

#[test]
fn test_style_null() {
    let style = Style::null();
    assert!(style.is_null());
}

#[test]
fn test_style_builder() {
    let style = Style::new()
        .bold()
        .italic()
        .color(Color::from_ansi(1));

    assert!(style.attributes.contains(Attributes::BOLD));
    assert!(style.attributes.contains(Attributes::ITALIC));
    assert!(style.color.is_some());
}

#[test]
fn test_style_combine() {
    let style1 = Style::new().bold().color(Color::from_ansi(1));
    let style2 = Style::new().italic().color(Color::from_ansi(2));

    let combined = style1.combine(&style2);

    assert!(combined.attributes.contains(Attributes::BOLD));
    assert!(combined.attributes.contains(Attributes::ITALIC));
    assert_eq!(combined.color.unwrap().number, Some(2));
}

#[test]
fn test_style_combine_null() {
    let style = Style::new().bold();
    let null = Style::null();

    assert_eq!(style.combine(&null), style);
    assert_eq!(null.combine(&style), style);
}

#[test]
fn test_style_parse_simple() {
    let style = Style::parse("bold").unwrap();
    assert!(style.attributes.contains(Attributes::BOLD));
}

#[test]
fn test_style_parse_color() {
    let style = Style::parse("red").unwrap();
    assert!(style.color.is_some());
}

#[test]
fn test_style_parse_background() {
    let style = Style::parse("on blue").unwrap();
    assert!(style.bgcolor.is_some());
}

#[test]
fn test_style_parse_combined() {
    let style = Style::parse("bold red on white").unwrap();
    assert!(style.attributes.contains(Attributes::BOLD));
    assert!(style.color.is_some());
    assert!(style.bgcolor.is_some());
}

#[test]
fn test_style_parse_not() {
    let style = Style::parse("not bold").unwrap();
    assert!(style.set_attributes.contains(Attributes::BOLD));
    assert!(!style.attributes.contains(Attributes::BOLD));
}

#[test]
fn test_style_parse_link() {
    let style = Style::parse("link https://example.com").unwrap();
    assert_eq!(style.link, Some("https://example.com".to_string()));
}

#[test]
fn test_style_render() {
    let style = Style::new().bold();
    let rendered = style.render("test", ColorSystem::TrueColor);
    assert!(rendered.contains("\x1b[1m"));
    assert!(rendered.contains("\x1b[0m"));
}

#[test]
fn test_style_stack() {
    let mut stack = StyleStack::new(Style::null());

    stack.push(Style::new().bold());
    assert!(stack.current().attributes.contains(Attributes::BOLD));

    stack.push(Style::new().italic());
    assert!(stack.current().attributes.contains(Attributes::BOLD));
    assert!(stack.current().attributes.contains(Attributes::ITALIC));

    stack.pop();
    assert!(stack.current().attributes.contains(Attributes::BOLD));
    assert!(!stack.current().attributes.contains(Attributes::ITALIC));
}

#[test]
fn test_style_add_operator() {
    let s1 = Style::new().bold();
    let s2 = Style::new().italic();
    let combined = s1 + s2;

    assert!(combined.attributes.contains(Attributes::BOLD));
    assert!(combined.attributes.contains(Attributes::ITALIC));
}
