use rich_rust::color::ColorSystem;
use rich_rust::console::{Console, ConsoleDimensions, ConsoleOptions, PrintOptions};
use rich_rust::segment::{ControlCode, ControlType, Segment};
use rich_rust::style::Style;

#[test]
fn test_console_new() {
    let console = Console::new();
    assert!(console.width() > 0);
    assert!(console.height() > 0);
}

#[test]
fn test_console_builder() {
    let console = Console::builder()
        .width(100)
        .height(50)
        .markup(false)
        .build();

    assert_eq!(console.width(), 100);
    assert_eq!(console.height(), 50);
    assert!(!console.markup);
}

#[test]
fn test_console_options() {
    let console = Console::builder().width(80).build();
    let options = console.options();

    assert_eq!(options.max_width, 80);
    assert_eq!(options.size.width, 80);
}

#[test]
fn test_print_options() {
    let options = PrintOptions::new()
        .with_markup(true)
        .with_style(Style::new().bold());

    assert_eq!(options.markup, Some(true));
    assert!(options.style.is_some());
}

#[test]
fn test_capture() {
    let mut console = Console::new();
    console.begin_capture();
    let segments = console.end_capture();
    assert!(segments.is_empty());
}

#[test]
fn test_dimensions() {
    let dims = ConsoleDimensions::default();
    assert_eq!(dims.width, 80);
    assert_eq!(dims.height, 24);
}

#[test]
fn test_custom_output_stream_line() {
    let mut console = Console::builder().width(80).build();
    console.line();
    let text = console.take_output();
    assert_eq!(text, "\n", "Expected single newline, got: {text:?}");
}

#[test]
fn console_capture_records_printed_segments() {
    let mut console = Console::builder().width(40).markup(false).build();
    console.begin_capture();
    console.print_segments(&[Segment::new("Hello", None)]);
    let segments = console.end_capture();
    let captured: String = segments.iter().map(|s| s.text.as_str()).collect();
    assert!(captured.contains("Hello"));
    assert_eq!(console.take_output(), "Hello");
}

#[test]
fn console_renders_style_in_color_system() {
    let mut console = Console::builder().color_system(ColorSystem::TrueColor).build();
    console.print_segments(&[Segment::styled("Hi", Style::new().bold())]);
    assert_eq!(console.take_output(), "\x1b[1mHi\x1b[0m");
}

#[test]
fn console_renders_control_codes() {
    let mut console = Console::builder().build();
    let controls = vec![
        ControlCode::with_params(ControlType::CursorMoveTo, vec![3, 0]),
        ControlCode::with_params(ControlType::EraseInLine, vec![7]),
        ControlCode::with_params(ControlType::SetWindowTitle, vec![72, 105, 300]),
        ControlCode::new(ControlType::Bell),
    ];
    console.print_segments(&[Segment::control(controls)]);
    assert_eq!(console.take_output(), "\x1b[3;1H\x1b[2K\x1b]0;Hi\x07\x07");
}

#[test]
fn console_options_update_width_takes_minimum() {
    let options = ConsoleOptions::default();
    assert_eq!(options.update_width(100).max_width, 80);
    assert_eq!(options.update_width(40).max_width, 40);
    assert_eq!(options.update_height(10).height, Some(10));
}

#[test]
fn console_without_colors_writes_plain_text() {
    let mut console = Console::builder().build().with_detected_color_system(None);
    console.print_segments(&[Segment::styled("x", Style::new().bold())]);
    assert_eq!(console.take_output(), "x");
}

#[test]
fn test_capture_collects_segments() {
    let mut console = Console::builder().width(40).markup(false).build();
    console.begin_capture();
    console.print_plain("Hello");
    let segments = console.end_capture();
    let captured: String = segments.iter().map(|s| s.text.as_str()).collect();
    assert!(captured.contains("Hello"));
}

#[test]
fn test_custom_output_stream() {
    let mut console = Console::builder().width(80).markup(false).build();
    console.print_plain("Hello, World!");
    let text = console.take_output();
    assert!(text.contains("Hello, World!"), "Expected 'Hello, World!' in output, got: {text}");
}

#[test]
fn test_print_plain_disables_markup() {
    let mut console = Console::builder().markup(true).build();
    console.print_plain("[bold]Hello[/]");
    let text = console.take_output();
    assert!(text.contains("[bold]Hello[/]"), "Expected literal markup in output, got: {text}");
    assert!(!text.contains("\x1b["), "Did not expect ANSI sequences in output, got: {text}");
}

#[test]
fn console_control_sequences() {
    let mut console = Console::builder().markup(false).build();
    console.clear();
    console.clear_line();
    console.set_title("demo");
    console.bell();
    assert_eq!(console.take_output(), "\x1b[2J\x1b[2K\x1b]0;demo\x07\x07");
}

#[test]
fn console_print_text_ends_line() {
    let mut console = Console::builder().force_terminal(false).build();
    console.print_text(&rich_rust::text::Text::new("hi"));
    assert_eq!(console.take_output(), "hi\n");
}

#[test]
fn no_color_disables_colors() {
    let console = Console::builder().no_color().force_terminal(true).build();
    assert_eq!(console.color_system(), None);
    assert!(!console.is_color_enabled());
}

#[test]
fn console_rule_lines() {
    let mut console = Console::builder().width(10).safe_box(true).build();
    console.rule(None);
    console.rule(Some("Hi"));
    assert_eq!(console.take_output(), "----------\n--- Hi ---\n");
    console.rule_at(Some("abcdefghij"), 8);
    assert_eq!(console.take_output(), " abc... \n");
    let mut fancy = Console::builder().width(3).build();
    fancy.rule(None);
    assert_eq!(fancy.take_output(), "\u{2500}\u{2500}\u{2500}\n");
}

#[test]
fn builder_reads_environment_settings() {
    let env = rich_rust::terminal::EnvSettings {
        no_color: Some("1".to_string()),
        force_color: None,
        colorterm: Some("truecolor".to_string()),
        term: None,
    };
    let console = Console::builder().env(env).build();
    assert_eq!(console.color_system(), None);
}

fn print_to_string(console: &mut Console, content: &str, options: &PrintOptions) -> String {
    let segments = console.render_with_options(content, options);
    console.print_segments(&segments);
    console.take_output()
}

#[test]
fn test_print_options_justify_uses_console_width() {
    let mut console = Console::builder().width(10).markup(false).build();
    let mut options = PrintOptions::new().with_justify(rich_rust::text::JustifyMethod::Center);
    options.no_newline = true;
    let text = print_to_string(&mut console, "Hi", &options);
    assert_eq!(text, "    Hi    ");
}

#[test]
fn test_print_options_width_wraps() {
    let mut console = Console::builder().width(80).markup(false).build();
    let mut options = PrintOptions::new();
    options.width = Some(4);
    let text = print_to_string(&mut console, "Hello", &options);
    assert_eq!(text, "Hell\no\n");
}

#[test]
fn test_print_options_no_wrap_ellipsis() {
    let mut console = Console::builder().width(80).markup(false).build();
    let mut options = PrintOptions::new()
        .with_no_wrap(true)
        .with_overflow(rich_rust::text::OverflowMethod::Ellipsis);
    options.width = Some(4);
    options.no_newline = true;
    let text = print_to_string(&mut console, "Hello", &options);
    assert_eq!(text, "H...");
}

#[test]
fn print_options_right_and_style() {
    let console = Console::builder().width(80).markup(false).build();
    let mut options = PrintOptions::new().with_justify(rich_rust::text::JustifyMethod::Right).with_style(Style::new().bold());
    options.width = Some(5);
    let segs = console.render_with_options_at("ab\ncd", &options, 80);
    let text: String = segs.iter().map(|s| s.text.as_str()).collect();
    assert_eq!(text, "   ab\n   cd\n");
    assert!(segs.iter().all(|s| s.style.is_some()));
    let plain = console.render_with_options_at("xy", &PrintOptions::new(), 80);
    let text: String = plain.iter().map(|s| s.text.as_str()).collect();
    assert_eq!(text, "xy\n");
}
